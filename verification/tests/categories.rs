use desktop_files_creator::categories::{
    categories, find_name, list_categories, lists_category, parse_categories, remove_name,
    toggle_category, SEPARATOR,
};

fn names(list: &[&str]) -> Vec<String> {
    list.iter().map(|s| s.to_string()).collect()
}

fn std_tokens(text: &str) -> Vec<String> {
    text.split(';').map(|s| s.trim().to_string()).filter(|s| !s.is_empty()).collect()
}

fn std_listed(parts: &[String]) -> String {
    let joined = parts.join(";");
    if joined.is_empty() {
        String::new()
    } else {
        joined + ";"
    }
}

#[test]
fn separator_is_a_semicolon() {
    assert_eq!(SEPARATOR, ';');
}

#[test]
fn the_check_list_has_thirteen_categories() {
    assert_eq!(
        categories(),
        vec![
            "AudioVideo",
            "Audio",
            "Video",
            "Development",
            "Education",
            "Game",
            "Graphics",
            "Network",
            "Office",
            "Science",
            "Settings",
            "System",
            "Utility"
        ]
    );
}

#[test]
fn every_category_is_read_back_from_its_own_text() {
    for name in categories() {
        let text = toggle_category("", name, true);
        assert_eq!(text, format!("{};", name));
        assert_eq!(parse_categories(&text), names(&[name]));
        assert!(lists_category(&text, name));
    }
}

#[test]
fn parse_reads_names_in_order() {
    assert_eq!(parse_categories("Audio;Video;"), names(&["Audio", "Video"]));
    assert_eq!(parse_categories("Audio;Video"), names(&["Audio", "Video"]));
    assert_eq!(parse_categories("Game"), names(&["Game"]));
}

#[test]
fn parse_trims_names_and_skips_empty_ones() {
    assert_eq!(parse_categories(" Audio ; Video ;; ;Game"), names(&["Audio", "Video", "Game"]));
    assert_eq!(parse_categories(";;;"), names(&[]));
    assert_eq!(parse_categories(""), names(&[]));
    assert_eq!(parse_categories("  "), names(&[]));
    assert_eq!(parse_categories(";Audio"), names(&["Audio"]));
}

#[test]
fn parse_keeps_repeated_names() {
    assert_eq!(parse_categories("Audio;Audio;"), names(&["Audio", "Audio"]));
}

#[test]
fn parse_agrees_with_split_trim_filter() {
    let samples = [
        "",
        ";",
        "a",
        "a;",
        ";a",
        "a;b",
        " a ; b ",
        "a;;b",
        "Audio Video;Development ;\tGame\n;",
        ";;;x;;;",
        "é;名前;\u{A0};z",
    ];
    for s in samples {
        assert_eq!(parse_categories(s), std_tokens(s), "{:?}", s);
    }
}

#[test]
fn find_name_gives_the_first_place() {
    let parts = names(&["Audio", "Video", "Audio"]);
    assert_eq!(find_name(&parts, "Audio"), Some(0));
    assert_eq!(find_name(&parts, "Video"), Some(1));
    assert_eq!(find_name(&parts, "Game"), None);
    assert_eq!(find_name(&names(&[]), "Game"), None);
}

#[test]
fn list_puts_a_separator_behind_every_name() {
    assert_eq!(list_categories(&names(&["Audio", "Video"])), "Audio;Video;");
    assert_eq!(list_categories(&names(&["Game"])), "Game;");
}

#[test]
fn list_of_nothing_is_empty() {
    assert_eq!(list_categories(&names(&[])), "");
    assert_eq!(list_categories(&names(&[""])), "");
}

#[test]
fn list_agrees_with_join() {
    let samples: [&[&str]; 6] =
        [&[], &[""], &["a"], &["a", "b"], &["", ""], &["Audio", "", "Video"]];
    for parts in samples {
        assert_eq!(list_categories(&names(parts)), std_listed(&names(parts)), "{:?}", parts);
    }
    assert_eq!(list_categories(&names(&["", ""])), ";;");
}

#[test]
fn switching_on_adds_the_name_at_the_end() {
    assert_eq!(toggle_category("", "Audio", true), "Audio;");
    assert_eq!(toggle_category("Audio;", "Video", true), "Audio;Video;");
    assert_eq!(toggle_category("Audio", "Video", true), "Audio;Video;");
}

#[test]
fn switching_on_a_listed_name_only_tidies_the_text() {
    assert_eq!(toggle_category("Audio;Video;", "Audio", true), "Audio;Video;");
    assert_eq!(toggle_category(" Audio ;; Video", "Video", true), "Audio;Video;");
}

#[test]
fn switching_off_takes_the_name_out() {
    assert_eq!(toggle_category("Audio;Video;", "Audio", false), "Video;");
    assert_eq!(toggle_category("Audio;Video;", "Video", false), "Audio;");
    assert_eq!(toggle_category("Audio;", "Audio", false), "");
}

#[test]
fn switching_off_takes_every_occurrence_out() {
    assert_eq!(toggle_category("Audio;Video;Audio;", "Audio", false), "Video;");
    assert_eq!(toggle_category("Game;Game;", "Game", false), "");
    assert_eq!(toggle_category(" Game ;Office; Game;;Game", "Game", false), "Office;");
}

#[test]
fn a_name_that_was_switched_off_is_not_listed() {
    let texts = ["", "Game", "Game;Game;", "Audio; Game ;Video;Game", "Gamer;Game"];
    for text in texts {
        let after = toggle_category(text, "Game", false);
        assert!(!lists_category(&after, "Game"), "{:?}", text);
        assert_eq!(lists_category(&after, "Audio"), lists_category(text, "Audio"));
        assert_eq!(lists_category(&after, "Gamer"), lists_category(text, "Gamer"));
    }
}

#[test]
fn a_name_that_was_switched_on_is_listed() {
    let texts = ["", "Game", "Game;Game;", "Audio; Video", ";;"];
    for text in texts {
        for name in categories() {
            let after = toggle_category(text, name, true);
            assert!(lists_category(&after, name), "{:?} {:?}", text, name);
        }
    }
}

#[test]
fn remove_name_leaves_the_other_names_in_order() {
    let parts = names(&["Audio", "Video", "Audio", "Game", "Audio"]);
    assert_eq!(remove_name(&parts, "Audio"), names(&["Video", "Game"]));
    assert_eq!(remove_name(&parts, "Video"), names(&["Audio", "Audio", "Game", "Audio"]));
    assert_eq!(remove_name(&parts, "Office"), parts);
    assert_eq!(remove_name(&names(&[]), "Office"), names(&[]));
    assert_eq!(remove_name(&names(&["Game", "Game"]), "Game"), names(&[]));
}

#[test]
fn switching_off_an_unlisted_name_only_tidies_the_text() {
    assert_eq!(toggle_category("Audio ; Video", "Game", false), "Audio;Video;");
    assert_eq!(toggle_category("", "Game", false), "");
}

#[test]
fn a_name_is_matched_whole() {
    assert_eq!(toggle_category("AudioVideo;", "Audio", true), "AudioVideo;Audio;");
    assert_eq!(toggle_category("AudioVideo;", "Audio", false), "AudioVideo;");
    assert!(!lists_category("AudioVideo;", "Audio"));
    assert!(!lists_category("audio;", "Audio"));
}

#[test]
fn switching_on_the_empty_name() {
    assert_eq!(toggle_category("", "", true), "");
    assert_eq!(toggle_category("Audio;", "", true), "Audio;;");
}

#[test]
fn lists_category_looks_at_the_names() {
    assert!(lists_category("Audio;Video;", "Video"));
    assert!(lists_category(" Video ", "Video"));
    assert!(!lists_category("Audio;Video;", "Game"));
    assert!(!lists_category("", "Game"));
    assert!(!lists_category("Audio;Video;", ""));
}

#[test]
fn written_text_is_read_back() {
    let samples = ["", "a", " a ; b ", "Audio;Video;Game;", ";;x;; y ;"];
    for s in samples {
        let parts = parse_categories(s);
        assert_eq!(parse_categories(&list_categories(&parts)), parts, "{:?}", s);
    }
}

#[test]
fn toggle_agrees_with_the_steps_on_a_list() {
    let texts = ["", "Audio;", "Audio;Video;", " Game ;; Audio ; Game", "x"];
    let picks = ["Audio", "Game", "Utility"];
    for text in texts {
        for name in picks {
            for active in [true, false] {
                let mut parts = std_tokens(text);
                if active {
                    if !parts.contains(&name.to_string()) {
                        parts.push(name.to_string());
                    }
                } else {
                    parts.retain(|x| x != name);
                }
                assert_eq!(toggle_category(text, name, active), std_listed(&parts));
            }
        }
    }
}
