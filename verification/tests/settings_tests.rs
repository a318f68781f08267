use std::path::{Path, PathBuf};

use gma_runner::colors::Rgb;
use gma_runner::keys::{Key, KeyDisplayExt};
use gma_runner::settings::{
    default_app_settings, default_settings_path_in, default_toggle_full_screen_key, missing_settings_message,
    settings_lookup, settings_path_in, AppSettings, AppSettingsFile, BindingAction, DeckConfig, DeckConfigFile,
    KeyBindings, KeyBindingsFile, SettingsLookup, UiStyle, UiStyleFile,
};

fn bits(x: f32) -> u32 {
    x.to_bits()
}

fn sample_file(decks: Option<Vec<DeckConfigFile>>, image_dir: Option<&str>) -> AppSettingsFile {
    AppSettingsFile {
        image_dir: image_dir.map(|d| d.to_string()),
        decks,
        active_deck: None,
        card_max_width: bits(420.0),
        card_max_height: bits(640.0),
        help_max_width: bits(900.0),
        help_max_height: bits(1100.0),
        card_corner_radius: bits(16.0),
        preload_cards: true,
        keybindings: None,
        ui_style: None,
    }
}

fn one_deck() -> Option<Vec<DeckConfigFile>> {
    Some(vec![DeckConfigFile { name: None, image_dir: "cards".to_string(), help_image: None }])
}

#[test]
fn duplicate_keybindings_are_rejected() {
    let bindings = KeyBindings {
        next_card: Key::Space,
        toggle_help: Key::H,
        toggle_deck_menu: Key::M,
        toggle_full_screen: Key::F,
        next_deck: Key::Tab,
        toggle_debug: Key::D,
        open_settings: Key::Space,
        quit: Key::Q,
    };

    let error = bindings.validate_unique().expect_err("duplicate bindings should fail");
    assert!(error.contains("Duplicate key binding"));
    assert!(error.contains("Space"));
}

#[test]
fn app_settings_from_file_resolves_relative_paths_and_clamps_active_deck() {
    let base_dir = Path::new("/tmp/gma-runner-tests");
    let raw = AppSettingsFile {
        image_dir: None,
        decks: Some(vec![
            DeckConfigFile {
                name: Some("Deck A".to_string()),
                image_dir: "decks/a".to_string(),
                help_image: Some("help/a.png".to_string()),
            },
            DeckConfigFile { name: None, image_dir: "decks/b".to_string(), help_image: None },
        ]),
        active_deck: Some(99),
        card_max_width: bits(420.0),
        card_max_height: bits(640.0),
        help_max_width: bits(900.0),
        help_max_height: bits(1100.0),
        card_corner_radius: bits(16.0),
        preload_cards: true,
        keybindings: Some(KeyBindingsFile::default()),
        ui_style: Some(UiStyleFile::default()),
    };

    let settings = AppSettings::from_file(raw, "/tmp/gma-runner-tests").expect("settings should parse");

    assert_eq!(settings.active_deck, 1);
    assert_eq!(PathBuf::from(&settings.decks[0].image_dir), base_dir.join("decks/a"));
    assert_eq!(settings.decks[0].help_image.as_ref().map(PathBuf::from), Some(base_dir.join("help/a.png")));
    assert_eq!(settings.decks[1].name, "b");
}

#[test]
fn app_settings_to_file_serializes_relative_paths() {
    let base_dir = Path::new("/tmp/gma-runner-tests");
    let settings = AppSettings {
        decks: vec![DeckConfig {
            name: "Deck A".to_string(),
            image_dir: base_dir.join("decks/a").to_string_lossy().into_owned(),
            help_image: Some(base_dir.join("help/a.png").to_string_lossy().into_owned()),
        }],
        active_deck: 0,
        card_max_width: bits(420.0),
        card_max_height: bits(640.0),
        help_max_width: bits(900.0),
        help_max_height: bits(1100.0),
        card_corner_radius: bits(16.0),
        preload_cards: true,
        keybindings: KeyBindings::from_file(KeyBindingsFile::default()).expect("default keybindings should parse"),
        ui_style: UiStyle::from_file(UiStyleFile::default()).expect("default ui style should parse"),
    };

    let file = settings.to_file("/tmp/gma-runner-tests");
    let decks = file.decks.expect("decks should be serialized");

    assert_eq!(PathBuf::from(&decks[0].image_dir), PathBuf::from("decks/a"));
    assert_eq!(decks[0].help_image.as_ref().map(PathBuf::from), Some(PathBuf::from("help/a.png")));
}

#[test]
fn invalid_keybinding_is_rejected() {
    let error = KeyBindings::from_file(KeyBindingsFile { next_card: "F1".to_string(), ..KeyBindingsFile::default() })
        .expect_err("unsupported key should fail");

    assert!(error.contains("Unsupported key binding"));
}

#[test]
fn missing_toggle_full_screen_defaults_to_f() {
    let table: toml::Table = toml::from_str(
        r#"
next_card = "Space"
toggle_help = "H"
toggle_deck_menu = "M"
next_deck = "Tab"
toggle_debug = "D"
open_settings = "S"
quit = "Q"
"#,
    )
    .expect("legacy keybindings should deserialize");
    let field = |name: &str| table.get(name).and_then(|value| value.as_str()).map(str::to_string);
    let raw = KeyBindingsFile {
        next_card: field("next_card").expect("next_card"),
        toggle_help: field("toggle_help").expect("toggle_help"),
        toggle_deck_menu: field("toggle_deck_menu").expect("toggle_deck_menu"),
        toggle_full_screen: field("toggle_full_screen").unwrap_or_else(default_toggle_full_screen_key),
        next_deck: field("next_deck").expect("next_deck"),
        toggle_debug: field("toggle_debug").expect("toggle_debug"),
        open_settings: field("open_settings").expect("open_settings"),
        quit: field("quit").expect("quit"),
    };

    let bindings = KeyBindings::from_file(raw).expect("legacy keybindings should parse");

    assert_eq!(bindings.toggle_full_screen, Key::F);
}

#[test]
fn invalid_color_is_rejected() {
    let error = UiStyle::from_file(UiStyleFile { toolbar_fill: "#12345".to_string(), ..UiStyleFile::default() })
        .expect_err("unsupported color should fail");

    assert!(error.contains("Use #RRGGBB"));
}

#[test]
fn key_names_are_read_ignoring_case_and_whitespace() {
    let raw = KeyBindingsFile {
        next_card: "  space ".to_string(),
        toggle_help: "h".to_string(),
        toggle_deck_menu: "\tm".to_string(),
        toggle_full_screen: "F".to_string(),
        next_deck: "TAB".to_string(),
        toggle_debug: "enter".to_string(),
        open_settings: "s".to_string(),
        quit: "q\n".to_string(),
    };
    let kb = KeyBindings::from_file(raw).expect("key names should parse");
    assert_eq!(kb.next_card, Key::Space);
    assert_eq!(kb.toggle_deck_menu, Key::M);
    assert_eq!(kb.next_deck, Key::Tab);
    assert_eq!(kb.toggle_debug, Key::Enter);
    assert_eq!(kb.quit, Key::Q);
}

#[test]
fn first_unknown_key_name_is_reported() {
    let error = KeyBindings::from_file(KeyBindingsFile {
        toggle_help: "Shift".to_string(),
        quit: "Esc".to_string(),
        ..KeyBindingsFile::default()
    })
    .expect_err("unknown names should fail");
    assert_eq!(error, "Unsupported key binding `Shift`");
}

#[test]
fn key_bindings_round_trip_through_the_file_form() {
    let kb = KeyBindings {
        next_card: Key::N,
        toggle_help: Key::Enter,
        toggle_deck_menu: Key::Tab,
        toggle_full_screen: Key::Z,
        next_deck: Key::Space,
        toggle_debug: Key::X,
        open_settings: Key::A,
        quit: Key::B,
    };
    let file = kb.to_file();
    assert_eq!(file.toggle_help, "Enter");
    assert_eq!(KeyBindings::from_file(file).expect("written bindings should parse"), kb);
}

#[test]
fn duplicate_error_names_the_later_action() {
    let mut kb = KeyBindings::from_file(KeyBindingsFile::default()).expect("defaults parse");
    assert_eq!(kb.validate_unique(), Ok(()));
    kb.set_key(BindingAction::Quit, Key::H);
    assert_eq!(kb.key_of(BindingAction::Quit), Key::H);
    assert_eq!(
        kb.validate_unique(),
        Err("Duplicate key binding detected for `quit` on key `H`.".to_string())
    );
    assert_eq!(kb.unavailable_keys(BindingAction::ToggleHelp), vec![Key::Space, Key::M, Key::F, Key::Tab, Key::D, Key::S, Key::H]);
}

#[test]
fn colors_read_and_write_as_hex() {
    let style = UiStyle::from_file(UiStyleFile::default()).expect("default style parses");
    assert_eq!(style.toolbar_fill, Rgb { r: 0x22, g: 0x25, b: 0x2c });
    assert_eq!(style.quit, Rgb { r: 0x96, g: 0x30, b: 0x40 });
    let file = style.to_file();
    assert_eq!(file.toolbar_fill, "#22252c");
    assert_eq!(file.help, "#3768b4");

    let lenient = UiStyle::from_file(UiStyleFile {
        toolbar_fill: "  ##AbCdEf ".to_string(),
        next_card: "#+f+f+f".to_string(),
        ..UiStyleFile::default()
    })
    .expect("lenient colors parse");
    assert_eq!(lenient.toolbar_fill, Rgb { r: 0xab, g: 0xcd, b: 0xef });
    assert_eq!(lenient.next_card, Rgb { r: 15, g: 15, b: 15 });

    let error = UiStyle::from_file(UiStyleFile { help: "#12345g".to_string(), ..UiStyleFile::default() })
        .expect_err("a non-hex digit fails");
    assert_eq!(error, "Unsupported color `#12345g`. Use #RRGGBB.");
}

#[test]
fn invalid_sizes_are_rejected_in_order() {
    let mut raw = sample_file(one_deck(), None);
    raw.card_max_width = bits(0.0);
    assert_eq!(AppSettings::from_file(raw, "/base").err(), Some("Card size values must be greater than zero.".to_string()));

    let mut raw = sample_file(one_deck(), None);
    raw.card_max_height = bits(-0.0);
    assert_eq!(AppSettings::from_file(raw, "/base").err(), Some("Card size values must be greater than zero.".to_string()));

    let mut raw = sample_file(one_deck(), None);
    raw.help_max_height = bits(-3.0);
    assert_eq!(AppSettings::from_file(raw, "/base").err(), Some("Help size values must be greater than zero.".to_string()));

    let mut raw = sample_file(one_deck(), None);
    raw.card_corner_radius = bits(-1.0);
    assert_eq!(AppSettings::from_file(raw, "/base").err(), Some("Card corner radius cannot be negative.".to_string()));

    let mut raw = sample_file(one_deck(), None);
    raw.card_corner_radius = bits(-0.0);
    assert!(AppSettings::from_file(raw, "/base").is_ok());

    let mut raw = sample_file(one_deck(), None);
    raw.card_max_width = bits(f32::NAN);
    assert!(AppSettings::from_file(raw, "/base").is_ok());
}

#[test]
fn decks_come_from_the_list_or_the_image_dir() {
    let err = AppSettings::from_file(sample_file(Some(Vec::new()), Some("x")), "/base").err();
    assert_eq!(err, Some("`decks` cannot be empty.".to_string()));

    let err = AppSettings::from_file(sample_file(None, None), "/base").err();
    assert_eq!(err, Some("Settings must define either `image_dir` or `[[decks]]`.".to_string()));

    let s = AppSettings::from_file(sample_file(None, Some("/abs/pics/")), "/base").expect("image_dir gives a deck");
    assert_eq!(s.decks.len(), 1);
    assert_eq!(s.decks[0].image_dir, "/abs/pics/");
    assert_eq!(s.decks[0].name, "pics");
    assert_eq!(s.active_deck, 0);

    let s = AppSettings::from_file(sample_file(None, Some("..")), "/base/").expect("image_dir gives a deck");
    assert_eq!(s.decks[0].image_dir, "/base/..");
    assert_eq!(s.decks[0].name, "Deck 1");
    assert_eq!(s.current_deck().name, "Deck 1");
}

#[test]
fn duplicate_bindings_in_the_file_are_rejected() {
    let mut raw = sample_file(one_deck(), None);
    raw.keybindings = Some(KeyBindingsFile { quit: "space".to_string(), ..KeyBindingsFile::default() });
    assert_eq!(
        AppSettings::from_file(raw, "/base").err(),
        Some("Duplicate key binding detected for `quit` on key `Space`.".to_string())
    );
}

#[test]
fn settings_round_trip_through_the_file_form() {
    let raw = AppSettingsFile {
        active_deck: Some(1),
        decks: Some(vec![
            DeckConfigFile { name: Some("One".to_string()), image_dir: "one".to_string(), help_image: Some("h.png".to_string()) },
            DeckConfigFile { name: None, image_dir: "/elsewhere/two".to_string(), help_image: None },
        ]),
        ..sample_file(None, None)
    };
    let s = AppSettings::from_file(raw, "/home/me/cfg").expect("settings parse");
    assert_eq!(s.decks[0].image_dir, "/home/me/cfg/one");
    assert_eq!(s.decks[1].name, "two");
    let file = s.to_file("/home/me/cfg");
    assert_eq!(file.active_deck, Some(1));
    assert!(file.image_dir.is_none());
    let again = AppSettings::from_file(file, "/home/me/cfg").expect("written settings parse");
    assert_eq!(again.active_deck, 1);
    assert_eq!(again.decks[0].image_dir, s.decks[0].image_dir);
    assert_eq!(again.decks[0].help_image, s.decks[0].help_image);
    assert_eq!(again.decks[1].image_dir, s.decks[1].image_dir);
    assert_eq!(again.decks[1].name, "two");
    assert_eq!(again.keybindings, s.keybindings);
    assert_eq!(again.ui_style, s.ui_style);
    assert_eq!(again.card_max_width, s.card_max_width);
}

#[test]
fn advancing_decks_wraps_around() {
    let raw = AppSettingsFile {
        decks: Some(vec![
            DeckConfigFile { name: None, image_dir: "a".to_string(), help_image: None },
            DeckConfigFile { name: None, image_dir: "b".to_string(), help_image: None },
            DeckConfigFile { name: None, image_dir: "c".to_string(), help_image: None },
        ]),
        ..sample_file(None, None)
    };
    let mut s = AppSettings::from_file(raw, "/d").expect("settings parse");
    assert_eq!(s.current_deck().name, "a");
    s.advance_deck();
    assert_eq!(s.current_deck().name, "b");
    s.advance_deck();
    s.advance_deck();
    assert_eq!(s.active_deck, 0);
}

#[test]
fn default_settings_are_valid() {
    let s = default_app_settings();
    assert_eq!(s.decks.len(), 1);
    assert_eq!(s.decks[0].name, "Deck 1");
    assert_eq!(s.decks[0].image_dir, "");
    assert_eq!(f32::from_bits(s.card_max_width), 420.0);
    assert_eq!(f32::from_bits(s.help_max_height), 1100.0);
    assert_eq!(f32::from_bits(s.card_corner_radius), 16.0);
    assert_eq!(s.keybindings.next_card, Key::Space);
    assert_eq!(s.keybindings.next_card.label(), "Space");
    assert_eq!(s.keybindings.validate_unique(), Ok(()));
}

#[test]
fn settings_lookup_prefers_the_settings_file() {
    assert_eq!(settings_lookup(true, true), SettingsLookup::ReadSettings);
    assert_eq!(settings_lookup(false, true), SettingsLookup::CopyDefault);
    assert_eq!(settings_lookup(false, false), SettingsLookup::TryNext);
    assert_eq!(settings_path_in("/app"), "/app/settings.toml");
    assert_eq!(default_settings_path_in("/app/"), "/app/settings.default.toml");
    assert_eq!(missing_settings_message(), "Could not find `settings.default.toml`.");
}

#[test]
fn earlier_errors_come_before_a_color_that_cannot_be_cut() {
    let style = UiStyleFile { toolbar_fill: "#a\u{20ac}bb".to_string(), ..UiStyleFile::default() };
    let mut raw = sample_file(one_deck(), None);
    raw.card_max_width = bits(0.0);
    raw.ui_style = Some(style.clone());
    assert_eq!(AppSettings::from_file(raw, "/base").err(), Some("Card size values must be greater than zero.".to_string()));

    let mut raw = sample_file(one_deck(), None);
    raw.keybindings = Some(KeyBindingsFile { quit: "space".to_string(), ..KeyBindingsFile::default() });
    raw.ui_style = Some(style);
    assert_eq!(
        AppSettings::from_file(raw, "/base").err(),
        Some("Duplicate key binding detected for `quit` on key `Space`.".to_string())
    );

    let error = UiStyle::from_file(UiStyleFile {
        toolbar_fill: "zz".to_string(),
        help: "#a\u{20ac}bb".to_string(),
        ..UiStyleFile::default()
    })
    .expect_err("the first color does not read");
    assert_eq!(error, "Unsupported color `zz`. Use #RRGGBB.");
}

#[test]
fn build_decks_reads_the_list_or_the_image_dir() {
    let err = gma_runner::settings::build_decks(&sample_file(Some(Vec::new()), Some("x")), "/base").err();
    assert_eq!(err, Some("`decks` cannot be empty.".to_string()));
    let err = gma_runner::settings::build_decks(&sample_file(None, None), "/base").err();
    assert_eq!(err, Some("Settings must define either `image_dir` or `[[decks]]`.".to_string()));
    let decks = gma_runner::settings::build_decks(
        &sample_file(
            Some(vec![
                DeckConfigFile { name: None, image_dir: "cards".to_string(), help_image: Some("help.png".to_string()) },
                DeckConfigFile { name: Some("Mine".to_string()), image_dir: "/abs".to_string(), help_image: None },
            ]),
            Some("ignored"),
        ),
        "/base",
    )
    .expect("the list gives decks");
    assert_eq!(decks.len(), 2);
    assert_eq!(decks[0].name, "cards");
    assert_eq!(decks[0].image_dir, "/base/cards");
    assert_eq!(decks[0].help_image.as_deref(), Some("/base/help.png"));
    assert_eq!(decks[1].name, "Mine");
    assert_eq!(decks[1].image_dir, "/abs");
    let decks = gma_runner::settings::build_decks(&sample_file(None, Some("pics")), "/base").expect("image_dir gives a deck");
    assert_eq!(decks.len(), 1);
    assert_eq!(decks[0].name, "pics");
    assert_eq!(decks[0].image_dir, "/base/pics");
    assert!(decks[0].help_image.is_none());
}
