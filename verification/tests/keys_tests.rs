use gma_runner::keys::{available_bindable_keys, bindable_keys, parse_key, Key, KeyDisplayExt};
use gma_runner::paths::{default_deck_name, is_absolute, join, path_file_name, relative_to, resolve_image_dir};
use gma_runner::settings::default_toggle_full_screen_key;

#[test]
fn available_bindable_keys_excludes_unavailable_keys() {
    let available = available_bindable_keys(&vec![Key::F, Key::Q, Key::Space]);

    assert!(!available.contains(&Key::F));
    assert!(!available.contains(&Key::Q));
    assert!(!available.contains(&Key::Space));
    assert!(available.contains(&Key::H));
    assert!(available.contains(&Key::Tab));
}

#[test]
fn available_keys_keep_the_offering_order() {
    let available = available_bindable_keys(&vec![Key::Tab, Key::A]);
    assert_eq!(available.len(), 27);
    assert_eq!(available[0], Key::Space);
    assert_eq!(available[1], Key::Enter);
    assert_eq!(available[2], Key::B);
    assert_eq!(available_bindable_keys(&Vec::new()), bindable_keys());
}

#[test]
fn every_label_reads_back_as_its_key() {
    let keys = bindable_keys();
    assert_eq!(keys.len(), 29);
    for key in keys {
        assert_eq!(parse_key(key.label()), Ok(key));
        assert_eq!(parse_key(&format!(" {} ", key.label().to_lowercase())), Ok(key));
    }
    assert_eq!(Key::Enter.label(), "Enter");
    assert_eq!(Key::Z.label(), "Z");
}

#[test]
fn unknown_key_names_are_refused() {
    assert_eq!(parse_key("F1"), Err("Unsupported key binding `F1`".to_string()));
    assert_eq!(parse_key(""), Err("Unsupported key binding ``".to_string()));
    assert_eq!(parse_key("Spac"), Err("Unsupported key binding `Spac`".to_string()));
    assert_eq!(parse_key("ß"), Err("Unsupported key binding `ß`".to_string()));
}

#[test]
fn full_screen_key_defaults_to_f() {
    assert_eq!(default_toggle_full_screen_key(), "F");
}

#[test]
fn paths_join_resolve_and_name() {
    assert!(is_absolute("/a"));
    assert!(!is_absolute("a/b"));
    assert_eq!(join("/base", "x/y"), "/base/x/y");
    assert_eq!(join("/base/", "x"), "/base/x");
    assert_eq!(join("", "x"), "x");
    assert_eq!(join("/base", "/abs"), "/abs");
    assert_eq!(resolve_image_dir("/base", "/abs/dir"), "/abs/dir");
    assert_eq!(resolve_image_dir("/base", "rel"), "/base/rel");
    assert_eq!(path_file_name("/a/b.png"), Some("b.png".to_string()));
    assert_eq!(path_file_name("a/b/"), Some("b".to_string()));
    assert_eq!(path_file_name("a/b/."), Some("b".to_string()));
    assert_eq!(path_file_name("a/.."), None);
    assert_eq!(path_file_name("/"), None);
    assert_eq!(path_file_name(""), None);
    assert_eq!(path_file_name("./"), None);
    assert_eq!(path_file_name(".hidden"), Some(".hidden".to_string()));
}

#[test]
fn default_deck_names() {
    assert_eq!(default_deck_name("/decks/forest", 4), "forest");
    assert_eq!(default_deck_name("", 0), "Deck 1");
    assert_eq!(default_deck_name("/", 9), "Deck 10");
    assert_eq!(default_deck_name("x/..", 122), "Deck 123");
    assert_eq!(default_deck_name("/decks/forest", usize::MAX), "forest");
}

#[test]
fn relative_paths_strip_the_settings_directory() {
    assert_eq!(relative_to("/tmp/base", "/tmp/base/decks/a"), "decks/a");
    assert_eq!(relative_to("/tmp/base", "/tmp/base//decks/a/"), "decks/a");
    assert_eq!(relative_to("/tmp/base", "/tmp/other/a"), "/tmp/other/a");
    assert_eq!(relative_to("/tmp/base", "/tmp/basement/a"), "/tmp/basement/a");
    assert_eq!(relative_to("/tmp/base", "/tmp/base"), "");
}

#[test]
fn relative_paths_resolve_back_component_by_component() {
    assert_eq!(relative_to("/a/b", "/a/bc/x"), "/a/bc/x");
    assert_eq!(relative_to("/a/b", "/a/b/c"), "c");
    for (base, path) in [("/a/", "/a//b"), ("/home/me/cfg", "/home/me/cfg/./cards/"), ("/x", "/y/z"), ("cfg", "cfg/a")] {
        let back = resolve_image_dir(base, &relative_to(base, path));
        assert_eq!(std::path::Path::new(&back), std::path::Path::new(path));
    }
}
