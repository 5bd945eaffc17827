//! What the window does on each of its events. Every function here takes
//! what the window reads at that moment, as plain values, and returns what
//! it is to show or do next.

use crate::categories::{
    clean, find_name, lemma_listed_normal_form, lemma_toggled_read_back, lemma_without, listed,
    parse_categories, toggle_category, toggled, tokens,
};
use crate::entry::{
    file_name, file_name_of, file_text, loaded, names_a_file, DesktopEntry, KeyValues,
    PATH_SEPARATOR,
};
use crate::text::{blank, is_blank};
use vstd::prelude::*;

verus! {

/// The directory that the files go to, from the home directory.
pub const APPLICATIONS_DIRECTORY: &'static str = ".local/share/applications";

/// The text fields of the form.
#[derive(Clone, Copy, Debug, PartialEq, Eq)]
pub enum Field {
    Name,
    Executable,
    Icon,
    Categories,
    Comment,
}

/// Which buttons beside a text field are visible.
#[derive(Clone, Copy, Debug, PartialEq, Eq)]
pub struct Buttons {
    /// The button that clears the field.
    pub clear: bool,
    /// The button that opens a file chooser, for a field that has one.
    pub chooser: Option<bool>,
}

/// A message dialog with a heading and a text below it.
#[derive(Clone, Debug, PartialEq, Eq)]
pub struct Alert {
    pub heading: String,
    pub body: String,
}

/// A message for the user.
#[derive(Clone, Debug, PartialEq, Eq)]
pub enum Notice {
    /// A line that is shown over the window for a few seconds.
    Toast(String),
    /// A dialog that stays until it is answered.
    Alert(Alert),
}

/// What the window does when it is built.
#[derive(Clone, Debug, PartialEq, Eq)]
pub struct Startup {
    /// The dialog to show, if any.
    pub alert: Option<Alert>,
    /// Whether the buttons that create a file and that open the directory
    /// can be used.
    pub buttons_sensitive: bool,
}

/// A check box of the category list.
#[derive(Clone, Debug, PartialEq, Eq)]
pub struct CheckBox {
    pub label: Option<String>,
    pub active: bool,
}

/// The first answer to a request to create the file.
#[derive(Clone, Debug, PartialEq, Eq)]
pub enum CreateCheck {
    /// There is no name: show the line and move the focus to the name.
    NameMissing(String),
    /// The name holds a path separator, so that its file would not stand in
    /// the directory: show the line and move the focus to the name.
    NameRefused(String),
    /// The file would get this name: look whether the directory has it.
    Lookup(String),
}

/// The second answer to a request to create the file, once it is known
/// whether the file exists.
#[derive(Clone, Debug, PartialEq, Eq)]
pub enum CreatePrompt {
    /// The file exists: show the dialog and move the focus to the name.
    Refuse(Alert),
    /// Ask this question, and create the file if the answer is yes.
    Confirm(String),
}

/// A file to write.
#[derive(Clone, Debug, PartialEq, Eq)]
pub struct DesktopFile {
    /// The name of the file, to be put behind the directory. It holds no
    /// path separator.
    pub file_name: String,
    pub content: String,
}

impl Alert {
    /// Whether the dialog has this heading and this text.
    pub open spec fn says(self, heading: Seq<char>, body: Seq<char>) -> bool {
        self.heading@ == heading && self.body@ == body
    }
}

/// The body of the dialog that says that the directory is missing.
pub open spec fn missing_directory_text(shown: Seq<char>) -> Seq<char> {
    "Path: "@ + shown
        + " does not exist!\nThe program will not be able to perform its functions."@
}

/// The question that is asked before a file is created.
pub open spec fn confirm_text(shown: Seq<char>) -> Seq<char> {
    "Create file "@ + shown + "?"@
}

/// The address under which a file manager opens `directory`.
pub open spec fn directory_uri(directory: Seq<char>) -> Seq<char> {
    "file://"@ + directory
}

/// The labels among `labels` whose check boxes are checked once the list
/// has been brought in line with `text`.
pub open spec fn checked(text: Seq<char>, labels: Seq<Seq<char>>) -> Set<Seq<char>> {
    Set::new(|label: Seq<char>| labels.contains(label) && tokens(text).contains(label))
}

/// What bringing a check box in line with `names` does to it. A box with a
/// label is to be checked exactly if the names hold its label: it is switched
/// to that state unless it is in it. A box without a label stays as it is.
pub open spec fn switch_of(check_box: CheckBox, names: Seq<Seq<char>>) -> Option<bool> {
    match check_box.label {
        Some(label) => if check_box.active != names.contains(label@) {
            Some(names.contains(label@))
        } else {
            None
        },
        None => None,
    }
}

/// Makes a dialog of two texts.
fn alert(heading: &str, body: String) -> (made: Alert)
    ensures
        made.says(heading@, body@),
{
    Alert { heading: String::from_str(heading), body }
}

/// The window is built. `directory_exists` says whether the directory that
/// the files go to is there, `directory_shown` is that directory as the
/// dialog is to show it. Without the directory the window says so and its
/// two lower buttons cannot be used.
pub fn constructed(directory_exists: bool, directory_shown: &str) -> (startup: Startup)
    ensures
        startup.buttons_sensitive == directory_exists,
        match startup.alert {
            Some(a) => !directory_exists && a.says("Error!"@, missing_directory_text(directory_shown@)),
            None => directory_exists,
        },
{
    if directory_exists {
        Startup { alert: None, buttons_sensitive: true }
    } else {
        let mut body = String::from_str("Path: ");
        body.append(directory_shown);
        body.append(" does not exist!\nThe program will not be able to perform its functions.");
        Startup { alert: Some(alert("Error!", body)), buttons_sensitive: false }
    }
}

/// The text of `field` has changed to `text`. The clear button shows while
/// there is something to clear; the file chooser button of the executable
/// and of the icon shows while there is not.
pub fn on_entry_change(field: Field, text: &str) -> (buttons: Buttons)
    ensures
        buttons.clear == !blank(text@),
        buttons.chooser == match field {
            Field::Executable | Field::Icon => Some(blank(text@)),
            _ => None::<bool>,
        },
{
    let is_empty = is_blank(text);
    let chooser = match field {
        Field::Executable => Some(is_empty),
        Field::Icon => Some(is_empty),
        _ => None,
    };
    Buttons { clear: !is_empty, chooser }
}

/// A file chooser was answered. The path that goes on is the chosen one,
/// and only where the answer was to accept.
pub fn on_file_chosen<P>(accepted: bool, path: Option<P>) -> (chosen: Option<P>)
    ensures
        chosen == if accepted {
            path
        } else {
            None
        },
{
    if accepted {
        path
    } else {
        None
    }
}

/// The check box of the category `name` was switched to `active` while the
/// category field held `text`. The new text of the field, unless the check
/// box is insensitive: then the field stays as it is. The new text does not
/// list a name that was switched off, and lists one that was switched on, as
/// long as that is a name that can be read back.
pub fn on_category_toggled(
    sensitive: bool,
    active: bool,
    name: &str,
    text: &str,
) -> (after: Option<String>)
    ensures
        match after {
            Some(t) => {
                &&& sensitive
                &&& t@ == listed(toggled(tokens(text@), name@, active))
                &&& !active ==> !tokens(t@).contains(name@)
                &&& active && clean(name@) ==> tokens(t@).contains(name@)
            },
            None => !sensitive,
        },
{
    if !sensitive {
        return None;
    }
    Some(toggle_category(text, name, active))
}

/// The category list opens while the category field holds `text`. For each
/// check box, in order, the state to switch it to, where it has to be
/// switched.
pub fn sync_categories_checkboxes(
    text: &str,
    boxes: &Vec<CheckBox>,
) -> (switches: Vec<Option<bool>>)
    ensures
        switches.len() == boxes.len(),
        forall|i: int|
            0 <= i < boxes.len() ==> #[trigger] switches[i] == switch_of(boxes[i], tokens(text@)),
{
    let parts = parse_categories(text);
    let mut switches: Vec<Option<bool>> = Vec::new();
    let mut i: usize = 0;
    while i < boxes.len()
        invariant
            i <= boxes.len(),
            switches.len() == i,
            parts.deep_view() == tokens(text@),
            forall|j: int|
                0 <= j < i ==> #[trigger] switches[j] == switch_of(boxes[j], tokens(text@)),
        decreases boxes.len() - i,
    {
        let switch = match &boxes[i].label {
            Some(label) => {
                let is_present = find_name(&parts, label.as_str()).is_some();
                if boxes[i].active != is_present {
                    Some(is_present)
                } else {
                    None
                }
            },
            None => None,
        };
        switches.push(switch);
        i += 1;
    }
    switches
}

/// The button that opens the directory was pressed: the address to open.
pub fn on_open_directory(directory: &str) -> (uri: String)
    ensures
        uri@ == directory_uri(directory@),
{
    let mut uri = String::from_str("file://");
    uri.append(directory);
    uri
}

/// The button that creates the file was pressed while the name field held
/// `name`. A blank name is asked for. A name with a path separator in it is
/// refused: its file would not stand in the directory. Any other name gives
/// the name of the file to look for, which holds no path separator.
pub fn on_create_file_check(name: &str) -> (check: CreateCheck)
    ensures
        match check {
            CreateCheck::NameMissing(line) => blank(name@) && line@ == "Enter the name"@,
            CreateCheck::NameRefused(line) => !blank(name@) && !names_a_file(name@) && line@
                == "The name cannot contain '/'"@,
            CreateCheck::Lookup(file) => !blank(name@) && names_a_file(name@) && file@
                == file_name(name@) && !file@.contains(PATH_SEPARATOR),
        },
{
    if is_blank(name) {
        return CreateCheck::NameMissing(String::from_str("Enter the name"));
    }
    match file_name_of(name) {
        Some(file) => CreateCheck::Lookup(file),
        None => CreateCheck::NameRefused(String::from_str("The name cannot contain '/'")),
    }
}

/// The file was looked for. `exists` says whether it is there, `shown` is
/// its name as the question is to show it. A file that exists is not
/// replaced; for any other the question is asked.
pub fn on_create_file_found(exists: bool, shown: &str) -> (prompt: CreatePrompt)
    ensures
        match prompt {
            CreatePrompt::Refuse(a) => exists && a.says(
                "Error!"@,
                "A file with the same name already exists"@,
            ),
            CreatePrompt::Confirm(question) => !exists && question@ == confirm_text(shown@),
        },
{
    if exists {
        return CreatePrompt::Refuse(
            alert("Error!", String::from_str("A file with the same name already exists")),
        );
    }
    let mut question = String::from_str("Create file ");
    question.append(shown);
    question.append("?");
    CreatePrompt::Confirm(question)
}

/// Whether `file` is the file to write for `entry`: it has the name and the
/// text of the form, and its name holds no path separator.
pub open spec fn is_file_of(file: DesktopFile, entry: DesktopEntry) -> bool {
    &&& file.file_name@ == file_name(entry@.name)
    &&& !file.file_name@.contains(PATH_SEPARATOR)
    &&& file.content@ == file_text(entry@)
}

/// The file to write for the form as it stands. There is none where the name
/// holds a path separator: the file would not stand in the directory.
pub fn create_desktop_file(entry: &DesktopEntry) -> (file: Option<DesktopFile>)
    ensures
        match file {
            Some(f) => names_a_file(entry@.name) && is_file_of(f, *entry),
            None => !names_a_file(entry@.name),
        },
{
    match entry.file_name() {
        Some(file_name) => Some(DesktopFile { file_name, content: entry.file_text() }),
        None => None,
    }
}

/// The question was answered. The file to write, where the answer was yes
/// and the form has a name that a file in the directory can have.
pub fn on_create_response(confirmed: bool, entry: &DesktopEntry) -> (file: Option<DesktopFile>)
    ensures
        match file {
            Some(f) => confirmed && names_a_file(entry@.name) && is_file_of(f, *entry),
            None => !confirmed || !names_a_file(entry@.name),
        },
{
    if confirmed {
        create_desktop_file(entry)
    } else {
        None
    }
}

/// The file was written, or could not be. `written` holds the path as the
/// dialog is to show it, or else the reason.
pub fn on_file_written(written: Result<String, String>) -> (made: Alert)
    ensures
        match written {
            Ok(path) => made.says("File Created!"@, "Path: "@ + path@),
            Err(reason) => made.says("Error!"@, "Could not create file: "@ + reason@),
        },
{
    match written {
        Ok(path) => {
            let mut body = String::from_str("Path: ");
            body.append(path.as_str());
            alert("File Created!", body)
        },
        Err(reason) => {
            let mut body = String::from_str("Could not create file: ");
            body.append(reason.as_str());
            alert("Error!", body)
        },
    }
}

/// A desktop entry file was read, or could not be. What was read goes into
/// the form, and a line says so; a failure leaves the form as it is and
/// shows the reason.
pub fn load_from_file(entry: &mut DesktopEntry, read: Result<KeyValues, String>) -> (notice: Notice)
    ensures
        match (read, notice) {
            (Ok(found), Notice::Toast(line)) => final(entry)@ == loaded(old(entry)@, found@) && line@
                == "File loaded successfully"@,
            (Err(reason), Notice::Alert(a)) => *final(entry) == *old(entry) && a.says(
                "Error loading file"@,
                reason@,
            ),
            _ => false,
        },
{
    match read {
        Ok(found) => {
            entry.load(found);
            Notice::Toast(String::from_str("File loaded successfully"))
        },
        Err(reason) => Notice::Alert(alert("Error loading file", reason)),
    }
}

/// Bringing a check box in line with the text and then writing the text anew
/// for it changes no name: after any number of such steps the field lists
/// what it listed before.
pub proof fn lemma_sync_keeps_names(text: Seq<char>, name: Seq<char>)
    ensures
        tokens(listed(toggled(tokens(text), name, tokens(text).contains(name)))) == tokens(text),
{
    lemma_without(tokens(text), name);
    lemma_listed_normal_form(text);
}

/// The check list and the field stay in step. After a check box was switched
/// and the field updated, bringing the list in line with the field finds
/// the boxes that were checked before, with the one that was switched added
/// or taken away. Of a box that was switched on this is said where its label
/// can be read back, as every label of the check list can.
pub proof fn lemma_checked_after_toggle(
    text: Seq<char>,
    labels: Seq<Seq<char>>,
    name: Seq<char>,
    active: bool,
)
    requires
        active ==> clean(name),
        labels.contains(name),
    ensures
        checked(listed(toggled(tokens(text), name, active)), labels) == if active {
            checked(text, labels).insert(name)
        } else {
            checked(text, labels).remove(name)
        },
{
    lemma_toggled_read_back(text, name, active);
    let after = checked(listed(toggled(tokens(text), name, active)), labels);
    let expected = if active {
        checked(text, labels).insert(name)
    } else {
        checked(text, labels).remove(name)
    };
    assert forall|label: Seq<char>| after.contains(label) <==> expected.contains(label) by {
        if label != name {
            assert(tokens(listed(toggled(tokens(text), name, active))).contains(label) <==> tokens(
                text,
            ).contains(label));
        }
    }
    assert(after =~= expected);
}

} // verus!
