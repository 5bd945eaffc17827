//! The values of the form, the desktop entry file that is written from them,
//! and the values that an existing desktop entry file is loaded with.

use crate::split::{join, join_texts, lemma_split_join, split};
use crate::text::{contains_char, trim, trimmed};
use vstd::prelude::*;

verus! {

/// The group of a desktop entry file that holds the entry.
pub const GROUP: &'static str = "Desktop Entry";

/// The key of the kind of entry.
pub const KEY_TYPE: &'static str = "Type";

/// The kind of entry that is written: an application.
pub const TYPE_APPLICATION: &'static str = "Application";

/// The key of the switch that hides the entry from menus.
pub const KEY_NO_DISPLAY: &'static str = "NoDisplay";

/// The key of the switch that runs the program in a terminal.
pub const KEY_TERMINAL: &'static str = "Terminal";

/// The key of the command that starts the program.
pub const KEY_EXEC: &'static str = "Exec";

/// The key of the icon.
pub const KEY_ICON: &'static str = "Icon";

/// The key of the name.
pub const KEY_NAME: &'static str = "Name";

/// The key of the comment.
pub const KEY_COMMENT: &'static str = "Comment";

/// The key of the category list.
pub const KEY_CATEGORIES: &'static str = "Categories";

/// What the name of a desktop entry file ends with.
pub const FILE_ENDING: &'static str = ".desktop";

/// The character that separates the parts of a path.
pub const PATH_SEPARATOR: char = '/';

/// The character that ends a line.
pub const LINE_END: char = '\n';

/// What the form holds: the text of its five fields as typed, and its two
/// switches.
#[derive(Clone, Debug, PartialEq, Eq)]
pub struct DesktopEntry {
    pub name: String,
    pub executable: String,
    pub icon: String,
    pub categories: String,
    pub comment: String,
    pub no_display: bool,
    pub terminal: bool,
}

/// A `DesktopEntry` as plain character sequences.
pub ghost struct DesktopEntryView {
    pub name: Seq<char>,
    pub executable: Seq<char>,
    pub icon: Seq<char>,
    pub categories: Seq<char>,
    pub comment: Seq<char>,
    pub no_display: bool,
    pub terminal: bool,
}

impl View for DesktopEntry {
    type V = DesktopEntryView;

    open spec fn view(&self) -> DesktopEntryView {
        DesktopEntryView {
            name: self.name@,
            executable: self.executable@,
            icon: self.icon@,
            categories: self.categories@,
            comment: self.comment@,
            no_display: self.no_display,
            terminal: self.terminal,
        }
    }
}

/// What was read from the group `Desktop Entry` of a desktop entry file:
/// for each key the value, where the file has one that can be read.
#[derive(Clone, Debug, PartialEq, Eq)]
pub struct KeyValues {
    pub name: Option<String>,
    pub executable: Option<String>,
    pub icon: Option<String>,
    pub categories: Option<String>,
    pub comment: Option<String>,
    pub no_display: Option<bool>,
    pub terminal: Option<bool>,
}

/// `KeyValues` as plain character sequences.
pub ghost struct KeyValuesView {
    pub name: Option<Seq<char>>,
    pub executable: Option<Seq<char>>,
    pub icon: Option<Seq<char>>,
    pub categories: Option<Seq<char>>,
    pub comment: Option<Seq<char>>,
    pub no_display: Option<bool>,
    pub terminal: Option<bool>,
}

/// The characters of an optional text.
pub open spec fn text_view(text: Option<String>) -> Option<Seq<char>> {
    match text {
        Some(t) => Some(t@),
        None => None,
    }
}

impl View for KeyValues {
    type V = KeyValuesView;

    open spec fn view(&self) -> KeyValuesView {
        KeyValuesView {
            name: text_view(self.name),
            executable: text_view(self.executable),
            icon: text_view(self.icon),
            categories: text_view(self.categories),
            comment: text_view(self.comment),
            no_display: self.no_display,
            terminal: self.terminal,
        }
    }
}

/// How a switch is written in the file.
pub open spec fn flag_text(on: bool) -> Seq<char> {
    if on {
        "true"@
    } else {
        "false"@
    }
}

/// The line that opens the group `group`.
pub open spec fn head_line(group: Seq<char>) -> Seq<char> {
    "["@ + group + "]"@
}

/// The line that gives `key` the value `value`.
pub open spec fn key_line(key: Seq<char>, value: Seq<char>) -> Seq<char> {
    key + "="@ + value
}

/// The lines of the desktop entry file for `entry`: the head of the group,
/// the kind of entry, the two switches, then the five texts, each trimmed.
pub open spec fn file_lines(entry: DesktopEntryView) -> Seq<Seq<char>> {
    seq![
        head_line(GROUP@),
        key_line(KEY_TYPE@, TYPE_APPLICATION@),
        key_line(KEY_NO_DISPLAY@, flag_text(entry.no_display)),
        key_line(KEY_TERMINAL@, flag_text(entry.terminal)),
        key_line(KEY_EXEC@, trimmed(entry.executable)),
        key_line(KEY_ICON@, trimmed(entry.icon)),
        key_line(KEY_NAME@, trimmed(entry.name)),
        key_line(KEY_COMMENT@, trimmed(entry.comment)),
        key_line(KEY_CATEGORIES@, trimmed(entry.categories)),
    ]
}

/// The text of the desktop entry file for `entry`: its lines with a line end
/// between them, and none after the last.
pub open spec fn file_text(entry: DesktopEntryView) -> Seq<char> {
    join(file_lines(entry), seq![LINE_END])
}

/// The name of the file that an entry called `name` is written to.
pub open spec fn file_name(name: Seq<char>) -> Seq<char> {
    trimmed(name) + FILE_ENDING@
}

/// Whether an entry called `name` can be written into the directory: the
/// trimmed name holds no path separator, so that the name of its file is a
/// single part of a path and leads nowhere else.
pub open spec fn names_a_file(name: Seq<char>) -> bool {
    !trimmed(name).contains(PATH_SEPARATOR)
}

/// Whether `value` can stand in a line of the file: it holds no line end.
pub open spec fn one_line(value: Seq<char>) -> bool {
    !value.contains(LINE_END)
}

/// The field that is shown after `found` was read: the value read, or what
/// the field held before where there is none.
pub open spec fn loaded_text(before: Seq<char>, found: Option<Seq<char>>) -> Seq<char> {
    match found {
        Some(text) => text,
        None => before,
    }
}

/// The switch that is shown after `found` was read: on only where the value
/// read says so.
pub open spec fn loaded_flag(found: Option<bool>) -> bool {
    found == Some(true)
}

/// The form after a desktop entry file was loaded into it.
pub open spec fn loaded(before: DesktopEntryView, found: KeyValuesView) -> DesktopEntryView {
    DesktopEntryView {
        name: loaded_text(before.name, found.name),
        executable: loaded_text(before.executable, found.executable),
        icon: loaded_text(before.icon, found.icon),
        categories: loaded_text(before.categories, found.categories),
        comment: loaded_text(before.comment, found.comment),
        no_display: loaded_flag(found.no_display),
        terminal: loaded_flag(found.terminal),
    }
}

/// How a switch is written in the file.
pub fn flag(on: bool) -> (text: &'static str)
    ensures
        text@ == flag_text(on),
{
    if on {
        "true"
    } else {
        "false"
    }
}

/// The name of the file that an entry called `name` is written to, where
/// there can be one: a name with a path separator in it has none. The name of
/// the file holds no path separator.
pub fn file_name_of(name: &str) -> (file: Option<String>)
    ensures
        match file {
            Some(f) => names_a_file(name@) && f@ == file_name(name@) && !f@.contains(
                PATH_SEPARATOR,
            ),
            None => !names_a_file(name@),
        },
{
    let stem = trim(name);
    if contains_char(stem, PATH_SEPARATOR) {
        return None;
    }
    proof {
        lemma_file_name_plain(name@);
    }
    let mut file = String::from_str(stem);
    file.append(FILE_ENDING);
    Some(file)
}

/// Writes the line that opens the group `group`.
fn write_head(group: &str) -> (line: String)
    ensures
        line@ == head_line(group@),
{
    let mut line = String::from_str("[");
    line.append(group);
    line.append("]");
    line
}

/// Writes the line that gives `key` the value `value`.
fn write_key(key: &str, value: &str) -> (line: String)
    ensures
        line@ == key_line(key@, value@),
{
    let mut line = String::from_str(key);
    line.append("=");
    line.append(value);
    line
}

/// The value read, or `false` where there is none.
fn flag_or_off(found: Option<bool>) -> (on: bool)
    ensures
        on == loaded_flag(found),
{
    match found {
        Some(on) => on,
        None => false,
    }
}

impl DesktopEntry {
    /// The empty form: no text, both switches off.
    pub fn new() -> (entry: DesktopEntry)
        ensures
            entry@ == (DesktopEntryView {
                name: Seq::empty(),
                executable: Seq::empty(),
                icon: Seq::empty(),
                categories: Seq::empty(),
                comment: Seq::empty(),
                no_display: false,
                terminal: false,
            }),
    {
        DesktopEntry {
            name: String::new(),
            executable: String::new(),
            icon: String::new(),
            categories: String::new(),
            comment: String::new(),
            no_display: false,
            terminal: false,
        }
    }

    /// The lines of the desktop entry file for this form.
    pub fn file_lines(&self) -> (lines: Vec<String>)
        ensures
            lines.deep_view() == file_lines(self@),
    {
        let mut lines: Vec<String> = Vec::new();
        lines.push(write_head(GROUP));
        lines.push(write_key(KEY_TYPE, TYPE_APPLICATION));
        lines.push(write_key(KEY_NO_DISPLAY, flag(self.no_display)));
        lines.push(write_key(KEY_TERMINAL, flag(self.terminal)));
        lines.push(write_key(KEY_EXEC, trim(self.executable.as_str())));
        lines.push(write_key(KEY_ICON, trim(self.icon.as_str())));
        lines.push(write_key(KEY_NAME, trim(self.name.as_str())));
        lines.push(write_key(KEY_COMMENT, trim(self.comment.as_str())));
        lines.push(write_key(KEY_CATEGORIES, trim(self.categories.as_str())));
        assert(lines.deep_view() =~= file_lines(self@));
        lines
    }

    /// The text of the desktop entry file for this form.
    pub fn file_text(&self) -> (text: String)
        ensures
            text@ == file_text(self@),
    {
        let lines = self.file_lines();
        proof {
            reveal_strlit("\n");
            assert("\n"@ =~= seq![LINE_END]);
        }
        join_texts(&lines, "\n")
    }

    /// The name of the file that this form is written to, where there can
    /// be one. It holds no path separator.
    pub fn file_name(&self) -> (file: Option<String>)
        ensures
            match file {
                Some(f) => names_a_file(self@.name) && f@ == file_name(self@.name) && !f@.contains(
                    PATH_SEPARATOR,
                ),
                None => !names_a_file(self@.name),
            },
    {
        file_name_of(self.name.as_str())
    }

    /// Shows what was read from a desktop entry file: each text that was
    /// found replaces that of its field, the other fields keep theirs, and a
    /// switch is on only where the file says so.
    pub fn load(&mut self, found: KeyValues)
        ensures
            final(self)@ == loaded(old(self)@, found@),
    {
        if let Some(name) = found.name {
            self.name = name;
        }
        if let Some(executable) = found.executable {
            self.executable = executable;
        }
        if let Some(icon) = found.icon {
            self.icon = icon;
        }
        if let Some(categories) = found.categories {
            self.categories = categories;
        }
        if let Some(comment) = found.comment {
            self.comment = comment;
        }
        self.no_display = flag_or_off(found.no_display);
        self.terminal = flag_or_off(found.terminal);
    }
}

/// Joining two texts brings in no character that neither of them holds.
pub proof fn lemma_concat_contains(a: Seq<char>, b: Seq<char>, c: char)
    requires
        !a.contains(c),
        !b.contains(c),
    ensures
        !(a + b).contains(c),
{
    if (a + b).contains(c) {
        let i = choose|i: int| 0 <= i < (a + b).len() && (a + b)[i] == c;
        if i < a.len() {
            assert(a[i] == c);
        } else {
            assert(b[i - a.len()] == c);
        }
    }
}

/// The file of a name without a path separator has none in its own name:
/// it stands in the directory that it is put into.
pub proof fn lemma_file_name_plain(name: Seq<char>)
    requires
        names_a_file(name),
    ensures
        !file_name(name).contains(PATH_SEPARATOR),
{
    reveal_strlit(".desktop");
    assert(!FILE_ENDING@.contains(PATH_SEPARATOR));
    lemma_concat_contains(trimmed(name), FILE_ENDING@, PATH_SEPARATOR);
}

/// A key and a value that hold no line end make one line.
pub proof fn lemma_key_line(key: Seq<char>, value: Seq<char>)
    requires
        one_line(key),
        one_line(value),
    ensures
        one_line(key_line(key, value)),
{
    reveal_strlit("=");
    assert(one_line("="@));
    lemma_concat_contains(key, "="@, LINE_END);
    lemma_concat_contains(key + "="@, value, LINE_END);
}

/// The file has one line for the group and one for each key, in a fixed
/// order, as long as no trimmed text of the form holds a line end: splitting
/// the text of the file at the line ends gives back its lines.
pub proof fn lemma_file_lines(entry: DesktopEntryView)
    requires
        one_line(trimmed(entry.executable)),
        one_line(trimmed(entry.icon)),
        one_line(trimmed(entry.name)),
        one_line(trimmed(entry.comment)),
        one_line(trimmed(entry.categories)),
    ensures
        split(file_text(entry), LINE_END) == file_lines(entry),
{
    reveal_strlit("Desktop Entry");
    reveal_strlit("Type");
    reveal_strlit("Application");
    reveal_strlit("NoDisplay");
    reveal_strlit("Terminal");
    reveal_strlit("Exec");
    reveal_strlit("Icon");
    reveal_strlit("Name");
    reveal_strlit("Comment");
    reveal_strlit("Categories");
    reveal_strlit("true");
    reveal_strlit("false");
    reveal_strlit("[");
    reveal_strlit("]");
    assert(one_line(GROUP@));
    assert(one_line("["@));
    assert(one_line("]"@));
    lemma_concat_contains("["@, GROUP@, LINE_END);
    lemma_concat_contains("["@ + GROUP@, "]"@, LINE_END);
    assert(one_line(KEY_TYPE@));
    assert(one_line(TYPE_APPLICATION@));
    assert(one_line(KEY_NO_DISPLAY@));
    assert(one_line(KEY_TERMINAL@));
    assert(one_line(KEY_EXEC@));
    assert(one_line(KEY_ICON@));
    assert(one_line(KEY_NAME@));
    assert(one_line(KEY_COMMENT@));
    assert(one_line(KEY_CATEGORIES@));
    assert(one_line(flag_text(true)));
    assert(one_line(flag_text(false)));
    lemma_key_line(KEY_TYPE@, TYPE_APPLICATION@);
    lemma_key_line(KEY_NO_DISPLAY@, flag_text(entry.no_display));
    lemma_key_line(KEY_TERMINAL@, flag_text(entry.terminal));
    lemma_key_line(KEY_EXEC@, trimmed(entry.executable));
    lemma_key_line(KEY_ICON@, trimmed(entry.icon));
    lemma_key_line(KEY_NAME@, trimmed(entry.name));
    lemma_key_line(KEY_COMMENT@, trimmed(entry.comment));
    lemma_key_line(KEY_CATEGORIES@, trimmed(entry.categories));
    lemma_split_join(file_lines(entry), LINE_END);
}

} // verus!
