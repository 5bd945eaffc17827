use desktop_files_creator::entry::{DesktopEntry, KeyValues};
use desktop_files_creator::window::{
    constructed, create_desktop_file, load_from_file, on_category_toggled, on_create_file_check,
    on_create_file_found, on_create_response, on_entry_change, on_file_chosen, on_file_written,
    on_open_directory, sync_categories_checkboxes, Alert, Buttons, CheckBox, CreateCheck,
    CreatePrompt, DesktopFile, Field, Notice, Startup, APPLICATIONS_DIRECTORY,
};

fn check_box(label: &str, active: bool) -> CheckBox {
    CheckBox { label: Some(label.to_string()), active }
}

fn editor() -> DesktopEntry {
    DesktopEntry {
        name: " Editor".to_string(),
        executable: "edit".to_string(),
        icon: "".to_string(),
        categories: "Utility;".to_string(),
        comment: "".to_string(),
        no_display: true,
        terminal: false,
    }
}

#[test]
fn a_window_with_its_directory_starts_silently() {
    assert_eq!(
        constructed(true, "\"/home/me/.local/share/applications\""),
        Startup { alert: None, buttons_sensitive: true }
    );
}

#[test]
fn a_window_without_its_directory_says_so() {
    assert_eq!(
        constructed(false, "\"/home/me/.local/share/applications\""),
        Startup {
            alert: Some(Alert {
                heading: "Error!".to_string(),
                body: "Path: \"/home/me/.local/share/applications\" does not exist!\nThe program will not be able to perform its functions.".to_string(),
            }),
            buttons_sensitive: false,
        }
    );
}

#[test]
fn the_clear_button_shows_while_there_is_text() {
    for field in [Field::Name, Field::Categories, Field::Comment] {
        assert_eq!(on_entry_change(field, "x"), Buttons { clear: true, chooser: None });
        assert_eq!(on_entry_change(field, ""), Buttons { clear: false, chooser: None });
        assert_eq!(on_entry_change(field, "  \t"), Buttons { clear: false, chooser: None });
    }
}

#[test]
fn the_chooser_button_shows_while_there_is_no_text() {
    for field in [Field::Executable, Field::Icon] {
        assert_eq!(on_entry_change(field, " /bin/sh "), Buttons { clear: true, chooser: Some(false) });
        assert_eq!(on_entry_change(field, ""), Buttons { clear: false, chooser: Some(true) });
        assert_eq!(on_entry_change(field, " "), Buttons { clear: false, chooser: Some(true) });
    }
}

#[test]
fn a_chosen_file_goes_on_only_when_accepted() {
    let path = std::path::PathBuf::from("/bin/sh");
    assert_eq!(on_file_chosen(true, Some(path.clone())), Some(path.clone()));
    assert_eq!(on_file_chosen(true, None::<String>), None);
    assert_eq!(on_file_chosen(false, Some(path)), None);
    assert_eq!(on_file_chosen(false, None::<String>), None);
}

#[test]
fn a_switched_check_box_updates_the_field() {
    assert_eq!(on_category_toggled(true, true, "Game", "Audio"), Some("Audio;Game;".to_string()));
    assert_eq!(on_category_toggled(true, false, "Audio", "Audio;Game;"), Some("Game;".to_string()));
    assert_eq!(on_category_toggled(true, false, "Audio", "Audio"), Some(String::new()));
}

#[test]
fn an_insensitive_check_box_changes_nothing() {
    assert_eq!(on_category_toggled(false, true, "Game", "Audio"), None);
    assert_eq!(on_category_toggled(false, false, "Audio", "Audio"), None);
}

#[test]
fn check_boxes_follow_the_text() {
    let boxes = vec![
        check_box("Audio", false),
        check_box("Video", true),
        check_box("Game", true),
        check_box("Office", false),
    ];
    assert_eq!(
        sync_categories_checkboxes(" Audio ;Game;", &boxes),
        vec![Some(true), Some(false), None, None]
    );
    assert_eq!(
        sync_categories_checkboxes("", &boxes),
        vec![None, Some(false), Some(false), None]
    );
}

#[test]
fn a_check_box_without_a_label_keeps_its_state() {
    let boxes = vec![
        CheckBox { label: None, active: true },
        CheckBox { label: None, active: false },
        check_box("", true),
    ];
    assert_eq!(sync_categories_checkboxes("Audio;", &boxes), vec![None, None, Some(false)]);
    assert_eq!(sync_categories_checkboxes("Audio;", &Vec::new()), Vec::<Option<bool>>::new());
}

#[test]
fn a_switched_check_box_is_found_as_it_was_left() {
    let names = desktop_files_creator::categories::categories();
    let mut text = String::from("Audio; Office");
    let mut boxes: Vec<CheckBox> = names.iter().map(|n| check_box(n, false)).collect();
    boxes[1].active = true;
    boxes[8].active = true;
    assert_eq!(sync_categories_checkboxes(&text, &boxes), vec![None; 13]);
    for (at, active) in [(5, true), (1, false), (12, true), (5, false), (0, true)] {
        text = on_category_toggled(true, active, names[at], &text).unwrap();
        boxes[at].active = active;
        assert_eq!(sync_categories_checkboxes(&text, &boxes), vec![None; 13]);
    }
    assert_eq!(text, "Office;Utility;AudioVideo;");
}

#[test]
fn bringing_a_check_box_in_line_keeps_the_names() {
    let text = " Audio ;; Game";
    for name in ["Audio", "Game", "Video"] {
        let listed = name != "Video";
        assert_eq!(on_category_toggled(true, listed, name, text), Some("Audio;Game;".to_string()));
    }
}

#[test]
fn the_directory_opens_as_a_file_address() {
    assert_eq!(
        on_open_directory("/home/me/.local/share/applications"),
        "file:///home/me/.local/share/applications"
    );
    assert_eq!(on_open_directory(""), "file://");
}

#[test]
fn a_blank_name_is_asked_for() {
    for name in ["", "  ", "\t\n"] {
        assert_eq!(
            on_create_file_check(name),
            CreateCheck::NameMissing("Enter the name".to_string())
        );
    }
}

#[test]
fn a_name_gives_the_file_to_look_for() {
    assert_eq!(on_create_file_check("gimp"), CreateCheck::Lookup("gimp.desktop".to_string()));
    assert_eq!(
        on_create_file_check("  Text Editor "),
        CreateCheck::Lookup("Text Editor.desktop".to_string())
    );
    assert_eq!(on_create_file_check(".."), CreateCheck::Lookup("...desktop".to_string()));
}

#[test]
fn a_name_that_leaves_the_directory_is_refused() {
    for name in ["/tmp/x", "a/b", "../x", "/", " x/ ", "~/x"] {
        assert_eq!(
            on_create_file_check(name),
            CreateCheck::NameRefused("The name cannot contain '/'".to_string()),
            "{:?}",
            name
        );
    }
}

#[test]
fn a_file_to_look_for_stands_in_the_directory() {
    let directory = std::path::Path::new("/home/me/.local/share/applications");
    for name in ["gimp", "..", ".", "a b", "x.desktop", "/tmp/x", "a/b", "../x", " "] {
        if let CreateCheck::Lookup(file) = on_create_file_check(name) {
            assert_eq!(directory.join(&file).parent(), Some(directory), "{:?}", name);
        }
    }
}

#[test]
fn an_existing_file_is_not_replaced() {
    assert_eq!(
        on_create_file_found(true, "gimp.desktop"),
        CreatePrompt::Refuse(Alert {
            heading: "Error!".to_string(),
            body: "A file with the same name already exists".to_string(),
        })
    );
}

#[test]
fn a_new_file_is_asked_about() {
    assert_eq!(
        on_create_file_found(false, "gimp.desktop"),
        CreatePrompt::Confirm("Create file gimp.desktop?".to_string())
    );
}

#[test]
fn the_file_to_write_has_the_name_and_the_text_of_the_form() {
    assert_eq!(
        create_desktop_file(&editor()),
        Some(DesktopFile {
            file_name: "Editor.desktop".to_string(),
            content: "[Desktop Entry]\nType=Application\nNoDisplay=true\nTerminal=false\nExec=edit\nIcon=\nName=Editor\nComment=\nCategories=Utility;".to_string(),
        })
    );
}

#[test]
fn no_file_is_written_outside_the_directory() {
    let mut entry = editor();
    for name in ["/tmp/x", "a/b", "../x"] {
        entry.name = name.to_string();
        assert_eq!(create_desktop_file(&entry), None, "{:?}", name);
        assert_eq!(on_create_response(true, &entry), None, "{:?}", name);
    }
}

#[test]
fn the_file_is_written_only_on_yes() {
    assert_eq!(on_create_response(true, &editor()), create_desktop_file(&editor()));
    assert!(on_create_response(true, &editor()).is_some());
    assert_eq!(on_create_response(false, &editor()), None);
}

#[test]
fn a_written_file_is_announced() {
    assert_eq!(
        on_file_written(Ok("\"/home/me/.local/share/applications/gimp.desktop\"".to_string())),
        Alert {
            heading: "File Created!".to_string(),
            body: "Path: \"/home/me/.local/share/applications/gimp.desktop\"".to_string(),
        }
    );
}

#[test]
fn a_failed_write_is_explained() {
    assert_eq!(
        on_file_written(Err("Permission denied (os error 13)".to_string())),
        Alert {
            heading: "Error!".to_string(),
            body: "Could not create file: Permission denied (os error 13)".to_string(),
        }
    );
}

#[test]
fn a_loaded_file_fills_the_form() {
    let mut entry = editor();
    let notice = load_from_file(
        &mut entry,
        Ok(KeyValues {
            name: Some("GIMP".to_string()),
            executable: None,
            icon: Some("gimp".to_string()),
            categories: None,
            comment: None,
            no_display: None,
            terminal: Some(true),
        }),
    );
    assert_eq!(notice, Notice::Toast("File loaded successfully".to_string()));
    assert_eq!(
        entry,
        DesktopEntry {
            name: "GIMP".to_string(),
            executable: "edit".to_string(),
            icon: "gimp".to_string(),
            categories: "Utility;".to_string(),
            comment: "".to_string(),
            no_display: false,
            terminal: true,
        }
    );
}

#[test]
fn a_file_that_cannot_be_read_leaves_the_form() {
    let mut entry = editor();
    let notice = load_from_file(&mut entry, Err("No such file or directory".to_string()));
    assert_eq!(
        notice,
        Notice::Alert(Alert {
            heading: "Error loading file".to_string(),
            body: "No such file or directory".to_string(),
        })
    );
    assert_eq!(entry, editor());
}

#[test]
fn the_files_go_below_the_home_directory() {
    assert_eq!(APPLICATIONS_DIRECTORY, ".local/share/applications");
    let mut path = std::path::PathBuf::from("/home/me");
    path.push(APPLICATIONS_DIRECTORY);
    assert_eq!(path, std::path::PathBuf::from("/home/me/.local/share/applications"));
}
