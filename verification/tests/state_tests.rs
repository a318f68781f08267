use gma_runner::card_state::{CardAppState, KeyOutcome, ToolbarButton};
use gma_runner::keys::Key;
use gma_runner::settings::{AppSettings, AppSettingsFile, BindingAction, DeckConfigFile, KeyBindingsFile};

fn settings(decks: &[&str], preload: bool) -> AppSettings {
    let raw = AppSettingsFile {
        image_dir: None,
        decks: Some(
            decks
                .iter()
                .map(|d| DeckConfigFile { name: None, image_dir: d.to_string(), help_image: Some(format!("{d}/help.png")) })
                .collect(),
        ),
        active_deck: None,
        card_max_width: 420.0f32.to_bits(),
        card_max_height: 640.0f32.to_bits(),
        help_max_width: 900.0f32.to_bits(),
        help_max_height: 1100.0f32.to_bits(),
        card_corner_radius: 16.0f32.to_bits(),
        preload_cards: preload,
        keybindings: Some(KeyBindingsFile::default()),
        ui_style: None,
    };
    AppSettings::from_file(raw, "/cfg").expect("settings parse")
}

fn paths(names: &[&str]) -> Vec<String> {
    names.iter().map(|n| n.to_string()).collect()
}

fn started(names: &[&str]) -> (CardAppState, Vec<String>) {
    let mut state = CardAppState::from_loaded(settings(&["a", "b"], true), "/cfg/settings.toml".to_string(), paths(names));
    let pending = state.startup();
    (state, pending)
}

#[test]
fn a_deck_without_images_is_an_error() {
    let mut state = CardAppState::from_loaded(settings(&["a"], true), "/cfg/settings.toml".to_string(), Vec::new());
    assert_eq!(state.error_message.as_deref(), Some("No images found in `/cfg/a`."));
    assert!(state.startup().is_empty());
    assert!(state.current_path.is_none());
    state.show_random_card();
    assert_eq!(state.error_message.as_deref(), Some("No images found in `/cfg/a`."));
}

#[test]
fn a_load_error_falls_back_to_the_defaults() {
    let state = CardAppState::from_load_error("Could not find `settings.default.toml`.".to_string());
    assert_eq!(state.settings_path, "settings.toml");
    assert_eq!(state.settings.decks[0].name, "Deck 1");
    assert!(state.image_paths.is_empty());
    assert_eq!(state.error_message.as_deref(), Some("Could not find `settings.default.toml`."));
}

#[test]
fn startup_draws_a_card_and_lists_the_preload() {
    let (state, pending) = started(&["/cfg/a/1.png", "/cfg/a/2.png", "/cfg/a/3.png"]);
    let current = state.current_path.clone().expect("a card is shown");
    assert!(state.image_paths.contains(&current));
    assert_eq!(pending, paths(&["/cfg/a/1.png", "/cfg/a/2.png", "/cfg/a/3.png"]));
    assert!(state.error_message.is_none());
}

#[test]
fn the_next_card_is_never_the_current_one() {
    let (mut state, _) = started(&["/cfg/a/1.png", "/cfg/a/2.png"]);
    for _ in 0..50 {
        let before = state.current_path.clone();
        state.advance_to_next_card();
        assert_ne!(state.current_path, before);
        assert!(state.error_message.is_none());
    }
    let (mut single, _) = started(&["/cfg/a/only.png"]);
    single.advance_to_next_card();
    assert_eq!(single.current_path.as_deref(), Some("/cfg/a/only.png"));
}

#[test]
fn a_deck_of_one_repeated_path_cannot_draw_another_card() {
    let (mut state, _) = started(&["/cfg/a/1.png", "/cfg/a/1.png"]);
    assert_eq!(state.current_path.as_deref(), Some("/cfg/a/1.png"));
    assert_eq!(state.card_candidates(), Vec::<usize>::new());
    state.advance_to_next_card();
    assert_eq!(state.error_message.as_deref(), Some("Unable to choose a card image."));
    state.show_chosen_card(None);
    assert_eq!(state.error_message.as_deref(), Some("Unable to choose a card image."));
}

#[test]
fn background_cards_are_cached_once() {
    let (mut state, _) = started(&["/cfg/a/1.png", "/cfg/a/2.png"]);
    assert!(state.on_card_decoded("/cfg/a/1.png"));
    assert!(!state.on_card_decoded("/cfg/a/1.png"));
    assert_eq!(state.current_deck_loaded_count(), 1);
    assert_eq!(state.preload_paths(), paths(&["/cfg/a/2.png"]));
    state.on_load_error("Failed to read /cfg/a/2.png: gone".to_string());
    assert_eq!(state.error_message.as_deref(), Some("Failed to read /cfg/a/2.png: gone"));
    assert!(state.take_cached_texture("/cfg/a/1.png"));
    assert!(state.error_message.is_none());
    assert!(!state.take_cached_texture("/cfg/a/help.png"));
    assert!(!state.current_help_loaded());
    state.on_texture_decoded("/cfg/a/help.png");
    assert!(state.current_help_loaded());
    state.on_texture_failed("Failed to decode x: bad".to_string());
    assert_eq!(state.error_message.as_deref(), Some("Failed to decode x: bad"));
}

#[test]
fn preloading_can_be_off() {
    let mut state = CardAppState::from_loaded(settings(&["a"], false), "/cfg/settings.toml".to_string(), paths(&["/cfg/a/1.png"]));
    assert!(state.startup().is_empty());
    assert!(state.preload_paths().is_empty());
}

#[test]
fn keys_toggle_panels_and_switch_decks() {
    let (mut state, _) = started(&["/cfg/a/1.png", "/cfg/a/2.png"]);
    assert_eq!(state.handle_keys_before_deck_switch(&vec![Key::D, Key::F, Key::M, Key::H]), KeyOutcome::Continue);
    assert!(state.show_debug && state.hide_ui_chrome && state.show_deck_menu && state.show_help);
    assert_eq!(state.handle_keys_before_deck_switch(&vec![Key::H, Key::Q, Key::D]), KeyOutcome::Quit);
    assert!(state.show_help && state.show_debug);

    assert_eq!(state.handle_keys_before_deck_switch(&vec![Key::Tab, Key::F]), KeyOutcome::DeckSwitched);
    assert_eq!(state.settings.active_deck, 1);
    assert!(!state.hide_ui_chrome && state.show_debug);
    assert!(!state.show_deck_menu && !state.show_help && state.current_path.is_none());
    let pending = state.finish_deck_load(paths(&["/cfg/b/x.png"]));
    assert_eq!(state.current_path.as_deref(), Some("/cfg/b/x.png"));
    assert_eq!(pending, paths(&["/cfg/b/x.png"]));

    state.handle_keys_after_deck_switch(&vec![Key::S, Key::Space]);
    assert!(state.show_settings);
    assert_eq!(state.draft_keybindings, Some(state.settings.keybindings));
    state.handle_keys_after_deck_switch(&vec![Key::S]);
    assert!(!state.show_settings && state.draft_keybindings.is_none());

    state.switch_to_next_deck();
    assert_eq!(state.settings.active_deck, 0);
}

#[test]
fn the_deck_menu_selects_other_decks_only() {
    let (mut state, _) = started(&["/cfg/a/1.png"]);
    assert_eq!(state.deck_menu_labels(), vec!["a (Current)".to_string(), "b".to_string()]);
    state.toggle_deck_menu();
    assert!(!state.select_deck(0));
    assert!(!state.show_deck_menu);
    assert!(!state.select_deck(7));
    assert!(state.select_deck(1));
    assert_eq!(state.settings.active_deck, 1);
    assert!(state.current_path.is_none());
    let pending = state.finish_deck_load(Vec::new());
    assert!(pending.is_empty());
    assert_eq!(state.error_message.as_deref(), Some("No images found in `/cfg/b`."));
}

#[test]
fn drafts_are_checked_before_they_are_saved() {
    let (mut state, _) = started(&["/cfg/a/1.png"]);
    assert!(!state.save_draft());
    state.open_settings();
    let draft = state.ensure_draft();
    assert_eq!(draft, state.settings.keybindings);
    state.set_draft_key(BindingAction::NextCard, Key::Q);
    assert!(!state.save_draft());
    assert_eq!(
        state.error_message.as_deref(),
        Some("Duplicate key binding detected for `quit` on key `Q`.")
    );
    assert_eq!(state.settings.keybindings.next_card, Key::Space);
    state.set_draft_key(BindingAction::NextCard, Key::N);
    assert!(state.save_draft());
    assert_eq!(state.settings.keybindings.next_card, Key::N);
    state.record_save_result(Ok(()));
    assert_eq!(state.settings_message.as_deref(), Some("Saved to /cfg/settings.toml"));
    assert!(state.error_message.is_none());
    state.record_save_result(Err("Failed to write /cfg/settings.toml: denied".to_string()));
    assert!(state.settings_message.is_none());
    assert_eq!(state.error_message.as_deref(), Some("Failed to write /cfg/settings.toml: denied"));
    state.close_settings();
    assert!(!state.show_settings);
}

#[test]
fn the_settings_file_is_written_relative_to_its_directory() {
    let (state, _) = started(&["/cfg/a/1.png"]);
    let file = state.settings_file_to_save().expect("the settings path has a directory");
    let decks = file.decks.expect("decks are written");
    assert_eq!(decks[0].image_dir, "a");
    assert_eq!(decks[1].help_image.as_deref(), Some("b/help.png"));
    let mut rootless = state;
    rootless.settings_path = "/".to_string();
    assert_eq!(rootless.settings_file_to_save().err(), Some("Cannot determine parent directory for /".to_string()));
}

#[test]
fn help_and_chrome_toggle() {
    let (mut state, _) = started(&["/cfg/a/1.png", "/cfg/a/2.png"]);
    state.set_help_visible(true);
    assert!(state.show_help);
    state.advance_to_next_card();
    assert!(!state.show_help);
    state.toggle_ui_chrome();
    state.toggle_ui_chrome();
    assert!(!state.hide_ui_chrome);
    state.toggle_debug();
    assert!(state.show_debug);
    state.toggle_settings();
    assert!(state.show_settings);
}

#[test]
fn key_hints_name_the_bound_keys() {
    let (state, _) = started(&["/cfg/a/1.png"]);
    let kb = state.settings.keybindings;
    assert_eq!(
        gma_runner::card_state::controls_help_text(&kb),
        "Press Space for next card, H for help, M for deck menu, F for full screen, S for settings, Tab for next deck, Q to quit."
    );
    assert_eq!(
        gma_runner::card_state::chrome_hint_text(&kb),
        "Press F to hide UI. Press D to toggle debug details."
    );
    assert_eq!(gma_runner::card_state::button_label("Next Card", Key::Space), "Next Card (Space)");
}

#[test]
fn a_refused_draft_keeps_the_settings_window_open() {
    let (mut state, _) = started(&["/cfg/a/1.png"]);
    state.open_settings();
    state.set_draft_key(BindingAction::Quit, Key::Space);
    assert!(!state.save_draft());
    assert!(state.show_settings);
    assert!(state.draft_keybindings.is_some());
    assert!(state.settings_message.is_none());
    assert_eq!(state.current_path.as_deref(), Some("/cfg/a/1.png"));
}

#[test]
fn switching_decks_from_the_menu_resets_the_panels() {
    let (mut state, _) = started(&["/cfg/a/1.png", "/cfg/a/2.png"]);
    state.toggle_debug();
    state.set_help_visible(true);
    state.open_settings();
    state.on_card_decoded("/cfg/a/1.png");
    state.on_load_error("Failed to decode /cfg/a/2.png: bad".to_string());
    assert!(state.select_deck(1));
    assert!(state.show_debug);
    assert!(!state.show_help && !state.show_settings && !state.show_deck_menu);
    assert!(state.draft_keybindings.is_none());
    assert!(state.error_message.is_none() && state.settings_message.is_none());
    assert!(state.loaded_paths.is_empty());
    assert_eq!(state.image_paths, paths(&["/cfg/a/1.png", "/cfg/a/2.png"]));
    let pending = state.finish_deck_load(paths(&["/cfg/b/x.png", "/cfg/b/y.png"]));
    assert_eq!(pending, paths(&["/cfg/b/x.png", "/cfg/b/y.png"]));
    assert!(state.show_debug);
    assert_eq!(state.settings_path, "/cfg/settings.toml");
}

#[test]
fn the_preload_skips_cached_images() {
    let (mut state, _) = started(&["/cfg/a/1.png", "/cfg/a/2.png", "/cfg/a/3.png"]);
    state.on_card_decoded("/cfg/a/2.png");
    assert_eq!(state.preload_paths(), paths(&["/cfg/a/1.png", "/cfg/a/3.png"]));
    let mut off = CardAppState::from_loaded(settings(&["a"], false), "/cfg/settings.toml".to_string(), paths(&["/cfg/a/1.png"]));
    let pending = off.startup();
    assert!(pending.is_empty());
    assert_eq!(off.current_path.as_deref(), Some("/cfg/a/1.png"));
}

#[test]
fn toolbar_buttons_do_what_their_keys_do() {
    let buttons = [
        (ToolbarButton::NextCard, Key::Space),
        (ToolbarButton::Help, Key::H),
        (ToolbarButton::DeckMenu, Key::M),
        (ToolbarButton::NextDeck, Key::Tab),
        (ToolbarButton::FullScreen, Key::F),
        (ToolbarButton::Debug, Key::D),
        (ToolbarButton::Settings, Key::S),
        (ToolbarButton::Quit, Key::Q),
    ];
    for (button, key) in buttons {
        let (mut by_button, _) = started(&["/cfg/a/1.png"]);
        let (mut by_key, _) = started(&["/cfg/a/1.png"]);
        let clicked = by_button.press_toolbar_button(button);
        let keyed = by_key.handle_keys_before_deck_switch(&vec![key]);
        if keyed == KeyOutcome::Continue {
            by_key.handle_keys_after_deck_switch(&vec![key]);
        }
        assert_eq!(clicked, keyed);
        assert_eq!(by_button.settings.active_deck, by_key.settings.active_deck);
        assert_eq!(by_button.current_path, by_key.current_path);
        assert_eq!(
            (by_button.show_debug, by_button.hide_ui_chrome, by_button.show_deck_menu, by_button.show_help, by_button.show_settings),
            (by_key.show_debug, by_key.hide_ui_chrome, by_key.show_deck_menu, by_key.show_help, by_key.show_settings)
        );
        assert_eq!(by_button.draft_keybindings, by_key.draft_keybindings);
        assert_eq!(by_button.loaded_paths, by_key.loaded_paths);
        assert_eq!(by_button.error_message, by_key.error_message);
    }
}
