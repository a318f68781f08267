//! The settings of the application: the file form that is read and written, the checked
//! form that the application uses, and the rules that lead from one to the other.

use vstd::prelude::*;
use vstd::string::*;
use crate::colors::{
    color_of_text, color_text, color_text_splits, color_to_hex, lemma_color_text_reads_back, parse_color,
    unsupported_color_message, Rgb,
};
use crate::keys::{
    key_label, key_named, lemma_key_named, lemma_label_reads_back, parse_key, unsupported_key_message, Key,
    KeyDisplayExt,
};
use crate::paths::{
    default_deck_name, default_deck_name_text, join, join_path, relative_path, relative_to, resolve_image_dir,
    resolved_path, resolves_back,
};

verus! {

/// The name of the settings file.
pub const SETTINGS_FILE_NAME: &'static str = "settings.toml";

/// The name of the file from which the settings file is first created.
pub const DEFAULT_SETTINGS_FILE_NAME: &'static str = "settings.default.toml";

// ---------------------------------------------------------------------------------------------
// Sizes. The settings hold `f32` values; this library holds each as its IEEE-754 bit pattern.
// ---------------------------------------------------------------------------------------------

/// `x <= 0.0` for the `f32` `x` whose bit pattern is `bits`: zero of either sign or a negative
/// number (NaN compares false).
pub open spec fn f32_at_most_zero(bits: u32) -> bool {
    bits == 0 || (0x8000_0000 <= bits && bits <= 0xff80_0000)
}

/// `x < 0.0` for the `f32` `x` whose bit pattern is `bits`.
pub open spec fn f32_below_zero(bits: u32) -> bool {
    0x8000_0000 < bits && bits <= 0xff80_0000
}

/// `x <= 0.0` on a bit pattern.
pub fn f32_bits_at_most_zero(bits: u32) -> (r: bool)
    ensures
        r == f32_at_most_zero(bits),
{
    bits == 0 || (0x8000_0000 <= bits && bits <= 0xff80_0000)
}

/// `x < 0.0` on a bit pattern.
pub fn f32_bits_below_zero(bits: u32) -> (r: bool)
    ensures
        r == f32_below_zero(bits),
{
    0x8000_0000 < bits && bits <= 0xff80_0000
}

// ---------------------------------------------------------------------------------------------
// Key bindings
// ---------------------------------------------------------------------------------------------

/// The key bound to each action.
#[derive(Clone, Copy, Debug, PartialEq, Eq, Structural)]
pub struct KeyBindings {
    pub next_card: Key,
    pub toggle_help: Key,
    pub toggle_deck_menu: Key,
    pub toggle_full_screen: Key,
    pub next_deck: Key,
    pub toggle_debug: Key,
    pub open_settings: Key,
    pub quit: Key,
}
/// The key bindings as written in the settings file: one key name per action.
#[derive(Clone, Debug)]
pub struct KeyBindingsFile {
    pub next_card: String,
    pub toggle_help: String,
    pub toggle_deck_menu: String,
    pub toggle_full_screen: String,
    pub next_deck: String,
    pub toggle_debug: String,
    pub open_settings: String,
    pub quit: String,
}
/// The key names of a `KeyBindingsFile`.
#[verifier::ext_equal]
pub struct KeyBindingsText {
    pub next_card: Seq<char>,
    pub toggle_help: Seq<char>,
    pub toggle_deck_menu: Seq<char>,
    pub toggle_full_screen: Seq<char>,
    pub next_deck: Seq<char>,
    pub toggle_debug: Seq<char>,
    pub open_settings: Seq<char>,
    pub quit: Seq<char>,
}

impl View for KeyBindingsFile {
    type V = KeyBindingsText;

    open spec fn view(&self) -> KeyBindingsText {
        KeyBindingsText {
            next_card: self.next_card@,
            toggle_help: self.toggle_help@,
            toggle_deck_menu: self.toggle_deck_menu@,
            toggle_full_screen: self.toggle_full_screen@,
            next_deck: self.next_deck@,
            toggle_debug: self.toggle_debug@,
            open_settings: self.open_settings@,
            quit: self.quit@,
        }
    }
}

/// The eight bound keys, in the order in which they are checked.
pub open spec fn binding_keys(kb: KeyBindings) -> Seq<Key> {
    seq![kb.next_card, kb.toggle_help, kb.toggle_deck_menu, kb.toggle_full_screen, kb.next_deck, kb.toggle_debug, kb.open_settings, kb.quit]
}

/// The names of the eight actions, in the same order.
pub open spec fn binding_names() -> Seq<Seq<char>> {
    seq!["next_card"@, "toggle_help"@, "toggle_deck_menu"@, "toggle_full_screen"@, "next_deck"@, "toggle_debug"@, "open_settings"@, "quit"@]
}

/// The key bindings that key names give: the first name that names no key is the error.
pub open spec fn bindings_from_text(t: KeyBindingsText) -> Result<KeyBindings, Seq<char>> {
    if key_named(t.next_card) is None {
        Err(unsupported_key_message(t.next_card))
    } else if key_named(t.toggle_help) is None {
        Err(unsupported_key_message(t.toggle_help))
    } else if key_named(t.toggle_deck_menu) is None {
        Err(unsupported_key_message(t.toggle_deck_menu))
    } else if key_named(t.toggle_full_screen) is None {
        Err(unsupported_key_message(t.toggle_full_screen))
    } else if key_named(t.next_deck) is None {
        Err(unsupported_key_message(t.next_deck))
    } else if key_named(t.toggle_debug) is None {
        Err(unsupported_key_message(t.toggle_debug))
    } else if key_named(t.open_settings) is None {
        Err(unsupported_key_message(t.open_settings))
    } else if key_named(t.quit) is None {
        Err(unsupported_key_message(t.quit))
    } else {
        Ok(KeyBindings {
            next_card: key_named(t.next_card)->0,
            toggle_help: key_named(t.toggle_help)->0,
            toggle_deck_menu: key_named(t.toggle_deck_menu)->0,
            toggle_full_screen: key_named(t.toggle_full_screen)->0,
            next_deck: key_named(t.next_deck)->0,
            toggle_debug: key_named(t.toggle_debug)->0,
            open_settings: key_named(t.open_settings)->0,
            quit: key_named(t.quit)->0,
        })
    }
}

/// The key names that key bindings are written as.
pub open spec fn bindings_text(kb: KeyBindings) -> KeyBindingsText {
    KeyBindingsText {
        next_card: key_label(kb.next_card),
        toggle_help: key_label(kb.toggle_help),
        toggle_deck_menu: key_label(kb.toggle_deck_menu),
        toggle_full_screen: key_label(kb.toggle_full_screen),
        next_deck: key_label(kb.next_deck),
        toggle_debug: key_label(kb.toggle_debug),
        open_settings: key_label(kb.open_settings),
        quit: key_label(kb.quit),
    }
}

/// The key names used when the settings give none.
pub open spec fn default_bindings_text() -> KeyBindingsText {
    KeyBindingsText {
        next_card: key_label(Key::Space),
        toggle_help: key_label(Key::H),
        toggle_deck_menu: key_label(Key::M),
        toggle_full_screen: key_label(Key::F),
        next_deck: key_label(Key::Tab),
        toggle_debug: key_label(Key::D),
        open_settings: key_label(Key::S),
        quit: key_label(Key::Q),
    }
}

/// Index of the first binding, from `j` on, whose key is also bound earlier.
pub open spec fn duplicate_from(keys: Seq<Key>, j: int) -> Option<int>
    decreases keys.len() - j,
{
    if j < 0 || j >= keys.len() {
        None
    } else if keys.take(j).contains(keys[j]) {
        Some(j)
    } else {
        duplicate_from(keys, j + 1)
    }
}

/// The message for the binding at `j` whose key is bound earlier.
pub open spec fn duplicate_message(kb: KeyBindings, j: int) -> Seq<char> {
    "Duplicate key binding detected for `"@ + binding_names()[j] + "` on key `"@ + key_label(binding_keys(kb)[j]) + "`."@
}

/// No two actions share a key.
pub open spec fn bindings_distinct(kb: KeyBindings) -> bool {
    forall|i: int, j: int| 0 <= i < j < 8 ==> binding_keys(kb)[i] != binding_keys(kb)[j]
}

proof fn lemma_name_reads_back(k: Key)
    ensures
        key_named(key_label(k)) == Some(k),
{
    lemma_label_reads_back(k);
    lemma_key_named(k, key_label(k));
}

/// Writing key bindings and reading them back gives the same bindings.
pub proof fn lemma_bindings_round_trip(kb: KeyBindings)
    ensures
        bindings_from_text(bindings_text(kb)) == Ok::<KeyBindings, Seq<char>>(kb),
{
    lemma_name_reads_back(kb.next_card);
    lemma_name_reads_back(kb.toggle_help);
    lemma_name_reads_back(kb.toggle_deck_menu);
    lemma_name_reads_back(kb.toggle_full_screen);
    lemma_name_reads_back(kb.next_deck);
    lemma_name_reads_back(kb.toggle_debug);
    lemma_name_reads_back(kb.open_settings);
    lemma_name_reads_back(kb.quit);
}

/// The key bindings used when the settings give none.
pub open spec fn default_bindings() -> KeyBindings {
    KeyBindings {
        next_card: Key::Space,
        toggle_help: Key::H,
        toggle_deck_menu: Key::M,
        toggle_full_screen: Key::F,
        next_deck: Key::Tab,
        toggle_debug: Key::D,
        open_settings: Key::S,
        quit: Key::Q,
    }
}

/// The default key names read as the default bindings, and these bind no key twice.
pub proof fn lemma_default_bindings()
    ensures
        default_bindings_text() == bindings_text(default_bindings()),
        bindings_from_text(default_bindings_text()) == Ok::<KeyBindings, Seq<char>>(default_bindings()),
        bindings_distinct(default_bindings()),
{
    lemma_bindings_round_trip(default_bindings());
}

/// The key name given to `toggle_full_screen` when the settings file leaves it out.
pub fn default_toggle_full_screen_key() -> (r: String)
    ensures
        r@ == key_label(Key::F),
{
    Key::F.label().to_owned()
}

impl Default for KeyBindingsFile {
    fn default() -> (r: Self)
        ensures
            r@ == default_bindings_text(),
    {
        KeyBindingsFile {
            next_card: Key::Space.label().to_owned(),
            toggle_help: Key::H.label().to_owned(),
            toggle_deck_menu: Key::M.label().to_owned(),
            toggle_full_screen: Key::F.label().to_owned(),
            next_deck: Key::Tab.label().to_owned(),
            toggle_debug: Key::D.label().to_owned(),
            open_settings: Key::S.label().to_owned(),
            quit: Key::Q.label().to_owned(),
        }
    }
}

impl KeyBindings {
    /// Reads each action's key name.
    pub fn from_file(raw: KeyBindingsFile) -> (r: Result<Self, String>)
        ensures
            match r {
                Ok(kb) => bindings_from_text(raw@) == Ok::<KeyBindings, Seq<char>>(kb),
                Err(e) => bindings_from_text(raw@) == Err::<KeyBindings, Seq<char>>(e@),
            },
    {
        Ok(KeyBindings {
            next_card: parse_key(&raw.next_card)?,
            toggle_help: parse_key(&raw.toggle_help)?,
            toggle_deck_menu: parse_key(&raw.toggle_deck_menu)?,
            toggle_full_screen: parse_key(&raw.toggle_full_screen)?,
            next_deck: parse_key(&raw.next_deck)?,
            toggle_debug: parse_key(&raw.toggle_debug)?,
            open_settings: parse_key(&raw.open_settings)?,
            quit: parse_key(&raw.quit)?,
        })
    }

    /// Writes each action's key by its label.
    pub fn to_file(&self) -> (r: KeyBindingsFile)
        ensures
            r@ == bindings_text(*self),
    {
        KeyBindingsFile {
            next_card: self.next_card.label().to_owned(),
            toggle_help: self.toggle_help.label().to_owned(),
            toggle_deck_menu: self.toggle_deck_menu.label().to_owned(),
            toggle_full_screen: self.toggle_full_screen.label().to_owned(),
            next_deck: self.next_deck.label().to_owned(),
            toggle_debug: self.toggle_debug.label().to_owned(),
            open_settings: self.open_settings.label().to_owned(),
            quit: self.quit.label().to_owned(),
        }
    }

    /// The bound keys in checking order, with the names of their actions.
    fn named_keys(&self) -> (r: Vec<(&'static str, Key)>)
        ensures
            r@.len() == 8,
            forall|i: int| 0 <= i < 8 ==> (#[trigger] r@[i]).0@ == binding_names()[i] && r@[i].1 == binding_keys(*self)[i],
    {
        proof {
            reveal_strlit("next_card");
        }
        proof {
            reveal_strlit("toggle_help");
        }
        proof {
            reveal_strlit("toggle_deck_menu");
        }
        proof {
            reveal_strlit("toggle_full_screen");
        }
        proof {
            reveal_strlit("next_deck");
        }
        proof {
            reveal_strlit("toggle_debug");
        }
        proof {
            reveal_strlit("open_settings");
        }
        proof {
            reveal_strlit("quit");
        }
        let r = vec![("next_card", self.next_card), ("toggle_help", self.toggle_help), ("toggle_deck_menu", self.toggle_deck_menu), ("toggle_full_screen", self.toggle_full_screen), ("next_deck", self.next_deck), ("toggle_debug", self.toggle_debug), ("open_settings", self.open_settings), ("quit", self.quit)];
        assert(r@.len() == 8);
        r
    }

    /// Checks that no key is bound to two actions; the error names the first action, in
    /// checking order, whose key an earlier action already has.
    pub fn validate_unique(&self) -> (r: Result<(), String>)
        ensures
            r is Ok <==> duplicate_from(binding_keys(*self), 0) is None,
            r is Ok <==> bindings_distinct(*self),
            r matches Err(e) ==> e@ == duplicate_message(*self, duplicate_from(binding_keys(*self), 0)->0),
    {
        let bindings = self.named_keys();
        let ghost keys = binding_keys(*self);
        let mut seen: Vec<Key> = Vec::new();
        let mut j: usize = 0;
        while j < bindings.len()
            invariant
                bindings@.len() == 8,
                keys == binding_keys(*self),
                forall|i: int| 0 <= i < 8 ==> (#[trigger] bindings@[i]).0@ == binding_names()[i] && bindings@[i].1 == keys[i],
                j <= 8,
                seen@ == keys.take(j as int),
                duplicate_from(keys, j as int) == duplicate_from(keys, 0),
                forall|a: int, b: int| 0 <= a < b < j ==> keys[a] != keys[b],
            decreases 8 - j,
        {
            let (name, key) = bindings[j];
            let mut found = false;
            let mut i: usize = 0;
            while i < seen.len()
                invariant
                    i <= seen@.len(),
                    found == exists|a: int| 0 <= a < i && seen@[a] == key,
                decreases seen@.len() - i,
            {
                if seen[i] == key {
                    found = true;
                }
                i = i + 1;
            }
            assert(found == keys.take(j as int).contains(keys[j as int]));
            if found {
                let mut e = String::new();
                e.append("Duplicate key binding detected for `");
                e.append(name);
                e.append("` on key `");
                e.append(key.label());
                e.append("`.");
                let ghost a = choose|a: int| 0 <= a < j && seen@[a] == key;
                assert(keys[a] == keys[j as int]);
                return Err(e);
            }
            assert forall|a: int, b: int| 0 <= a < b < j + 1 implies keys[a] != keys[b] by {
                if b == j {
                    assert(seen@[a] == keys[a]);
                }
            }
            seen.push(key);
            assert(seen@ =~= keys.take(j + 1));
            j = j + 1;
        }
        Ok(())
    }
}

/// An action that a key can be bound to.
#[derive(Clone, Copy, Debug, PartialEq, Eq, Structural)]
pub enum BindingAction {
    NextCard,
    ToggleHelp,
    ToggleDeckMenu,
    ToggleFullScreen,
    NextDeck,
    ToggleDebug,
    OpenSettings,
    Quit,
}

/// The position of an action in checking order.
pub open spec fn action_index(a: BindingAction) -> int {
    match a {
        BindingAction::NextCard => 0,
        BindingAction::ToggleHelp => 1,
        BindingAction::ToggleDeckMenu => 2,
        BindingAction::ToggleFullScreen => 3,
        BindingAction::NextDeck => 4,
        BindingAction::ToggleDebug => 5,
        BindingAction::OpenSettings => 6,
        BindingAction::Quit => 7,
    }
}

impl KeyBindings {
    /// The key bound to an action.
    pub fn key_of(&self, action: BindingAction) -> (k: Key)
        ensures
            k == binding_keys(*self)[action_index(action)],
    {
        match action {
            BindingAction::NextCard => self.next_card,
            BindingAction::ToggleHelp => self.toggle_help,
            BindingAction::ToggleDeckMenu => self.toggle_deck_menu,
            BindingAction::ToggleFullScreen => self.toggle_full_screen,
            BindingAction::NextDeck => self.next_deck,
            BindingAction::ToggleDebug => self.toggle_debug,
            BindingAction::OpenSettings => self.open_settings,
            BindingAction::Quit => self.quit,
        }
    }

    /// Binds an action to a key.
    pub fn set_key(&mut self, action: BindingAction, key: Key)
        ensures
            binding_keys(*final(self)) == binding_keys(*old(self)).update(action_index(action), key),
    {
        match action {
            BindingAction::NextCard => self.next_card = key,
            BindingAction::ToggleHelp => self.toggle_help = key,
            BindingAction::ToggleDeckMenu => self.toggle_deck_menu = key,
            BindingAction::ToggleFullScreen => self.toggle_full_screen = key,
            BindingAction::NextDeck => self.next_deck = key,
            BindingAction::ToggleDebug => self.toggle_debug = key,
            BindingAction::OpenSettings => self.open_settings = key,
            BindingAction::Quit => self.quit = key,
        }
        assert(binding_keys(*self) =~= binding_keys(*old(self)).update(action_index(action), key));
    }

    /// The keys of the other seven actions, which the action cannot be bound to.
    pub fn unavailable_keys(&self, action: BindingAction) -> (r: Vec<Key>)
        ensures
            r@ == binding_keys(*self).remove(action_index(action)),
    {
        let mut r = vec![self.next_card, self.toggle_help, self.toggle_deck_menu, self.toggle_full_screen, self.next_deck, self.toggle_debug, self.open_settings, self.quit];
        let skip: usize = match action {
            BindingAction::NextCard => 0,
            BindingAction::ToggleHelp => 1,
            BindingAction::ToggleDeckMenu => 2,
            BindingAction::ToggleFullScreen => 3,
            BindingAction::NextDeck => 4,
            BindingAction::ToggleDebug => 5,
            BindingAction::OpenSettings => 6,
            BindingAction::Quit => 7,
        };
        assert(r@ == binding_keys(*self));
        r.remove(skip);
        r
    }
}

// ---------------------------------------------------------------------------------------------
// Interface colors
// ---------------------------------------------------------------------------------------------

/// The colors of the toolbar and of its buttons.
#[derive(Clone, Copy, Debug, PartialEq, Eq, Structural)]
pub struct UiStyle {
    pub toolbar_fill: Rgb,
    pub toolbar_stroke: Rgb,
    pub next_card: Rgb,
    pub help: Rgb,
    pub deck_menu: Rgb,
    pub next_deck: Rgb,
    pub debug: Rgb,
    pub settings: Rgb,
    pub quit: Rgb,
}
/// The interface colors as written in the settings file, each as `#RRGGBB`.
#[derive(Clone, Debug)]
pub struct UiStyleFile {
    pub toolbar_fill: String,
    pub toolbar_stroke: String,
    pub next_card: String,
    pub help: String,
    pub deck_menu: String,
    pub next_deck: String,
    pub debug: String,
    pub settings: String,
    pub quit: String,
}
/// The color texts of a `UiStyleFile`.
#[verifier::ext_equal]
pub struct UiStyleText {
    pub toolbar_fill: Seq<char>,
    pub toolbar_stroke: Seq<char>,
    pub next_card: Seq<char>,
    pub help: Seq<char>,
    pub deck_menu: Seq<char>,
    pub next_deck: Seq<char>,
    pub debug: Seq<char>,
    pub settings: Seq<char>,
    pub quit: Seq<char>,
}

impl View for UiStyleFile {
    type V = UiStyleText;

    open spec fn view(&self) -> UiStyleText {
        UiStyleText {
            toolbar_fill: self.toolbar_fill@,
            toolbar_stroke: self.toolbar_stroke@,
            next_card: self.next_card@,
            help: self.help@,
            deck_menu: self.deck_menu@,
            next_deck: self.next_deck@,
            debug: self.debug@,
            settings: self.settings@,
            quit: self.quit@,
        }
    }
}

/// None of the color texts would panic when cut into its three components.
pub open spec fn style_text_splits(t: UiStyleText) -> bool {
    &&& color_text_splits(t.toolbar_fill)
    &&& color_text_splits(t.toolbar_stroke)
    &&& color_text_splits(t.next_card)
    &&& color_text_splits(t.help)
    &&& color_text_splits(t.deck_menu)
    &&& color_text_splits(t.next_deck)
    &&& color_text_splits(t.debug)
    &&& color_text_splits(t.settings)
    &&& color_text_splits(t.quit)
}

/// Each color text that reading reaches can be cut into its components: reading goes through
/// the texts in order and stops at the first that names no color.
pub open spec fn style_text_safe(t: UiStyleText) -> bool {
    color_text_splits(t.toolbar_fill) && (color_of_text(t.toolbar_fill) is Some ==>
    color_text_splits(t.toolbar_stroke) && (color_of_text(t.toolbar_stroke) is Some ==>
    color_text_splits(t.next_card) && (color_of_text(t.next_card) is Some ==>
    color_text_splits(t.help) && (color_of_text(t.help) is Some ==>
    color_text_splits(t.deck_menu) && (color_of_text(t.deck_menu) is Some ==>
    color_text_splits(t.next_deck) && (color_of_text(t.next_deck) is Some ==>
    color_text_splits(t.debug) && (color_of_text(t.debug) is Some ==>
    color_text_splits(t.settings) && (color_of_text(t.settings) is Some ==>
    color_text_splits(t.quit)))))))))
}

/// The colors that color texts give: the first text that names no color is the error.
pub open spec fn style_from_text(t: UiStyleText) -> Result<UiStyle, Seq<char>> {
    if color_of_text(t.toolbar_fill) is None {
        Err(unsupported_color_message(t.toolbar_fill))
    } else if color_of_text(t.toolbar_stroke) is None {
        Err(unsupported_color_message(t.toolbar_stroke))
    } else if color_of_text(t.next_card) is None {
        Err(unsupported_color_message(t.next_card))
    } else if color_of_text(t.help) is None {
        Err(unsupported_color_message(t.help))
    } else if color_of_text(t.deck_menu) is None {
        Err(unsupported_color_message(t.deck_menu))
    } else if color_of_text(t.next_deck) is None {
        Err(unsupported_color_message(t.next_deck))
    } else if color_of_text(t.debug) is None {
        Err(unsupported_color_message(t.debug))
    } else if color_of_text(t.settings) is None {
        Err(unsupported_color_message(t.settings))
    } else if color_of_text(t.quit) is None {
        Err(unsupported_color_message(t.quit))
    } else {
        Ok(UiStyle {
            toolbar_fill: color_of_text(t.toolbar_fill)->0,
            toolbar_stroke: color_of_text(t.toolbar_stroke)->0,
            next_card: color_of_text(t.next_card)->0,
            help: color_of_text(t.help)->0,
            deck_menu: color_of_text(t.deck_menu)->0,
            next_deck: color_of_text(t.next_deck)->0,
            debug: color_of_text(t.debug)->0,
            settings: color_of_text(t.settings)->0,
            quit: color_of_text(t.quit)->0,
        })
    }
}

/// The texts that colors are written as.
pub open spec fn style_text(s: UiStyle) -> UiStyleText {
    UiStyleText {
        toolbar_fill: color_text(s.toolbar_fill),
        toolbar_stroke: color_text(s.toolbar_stroke),
        next_card: color_text(s.next_card),
        help: color_text(s.help),
        deck_menu: color_text(s.deck_menu),
        next_deck: color_text(s.next_deck),
        debug: color_text(s.debug),
        settings: color_text(s.settings),
        quit: color_text(s.quit),
    }
}

/// The colors used when the settings give none.
pub open spec fn default_style() -> UiStyle {
    UiStyle {
        toolbar_fill: Rgb { r: 0x22, g: 0x25, b: 0x2c },
        toolbar_stroke: Rgb { r: 0x40, g: 0x46, b: 0x52 },
        next_card: Rgb { r: 0x2c, g: 0x7a, b: 0x5e },
        help: Rgb { r: 0x37, g: 0x68, b: 0xb4 },
        deck_menu: Rgb { r: 0x6c, g: 0x4e, b: 0xa8 },
        next_deck: Rgb { r: 0xb2, g: 0x75, b: 0x24 },
        debug: Rgb { r: 0x94, g: 0x50, b: 0x34 },
        settings: Rgb { r: 0x5c, g: 0x60, b: 0x76 },
        quit: Rgb { r: 0x96, g: 0x30, b: 0x40 },
    }
}

/// Writing colors and reading them back gives the same colors.
pub proof fn lemma_style_round_trip(st: UiStyle)
    ensures
        style_text_splits(style_text(st)),
        style_from_text(style_text(st)) == Ok::<UiStyle, Seq<char>>(st),
{
    lemma_color_text_reads_back(st.toolbar_fill);
    lemma_color_text_reads_back(st.toolbar_stroke);
    lemma_color_text_reads_back(st.next_card);
    lemma_color_text_reads_back(st.help);
    lemma_color_text_reads_back(st.deck_menu);
    lemma_color_text_reads_back(st.next_deck);
    lemma_color_text_reads_back(st.debug);
    lemma_color_text_reads_back(st.settings);
    lemma_color_text_reads_back(st.quit);
}

impl Default for UiStyleFile {
    fn default() -> (r: Self)
        ensures
            r@ == style_text(default_style()),
    {
        UiStyleFile {
            toolbar_fill: color_to_hex(Rgb { r: 0x22, g: 0x25, b: 0x2c }),
            toolbar_stroke: color_to_hex(Rgb { r: 0x40, g: 0x46, b: 0x52 }),
            next_card: color_to_hex(Rgb { r: 0x2c, g: 0x7a, b: 0x5e }),
            help: color_to_hex(Rgb { r: 0x37, g: 0x68, b: 0xb4 }),
            deck_menu: color_to_hex(Rgb { r: 0x6c, g: 0x4e, b: 0xa8 }),
            next_deck: color_to_hex(Rgb { r: 0xb2, g: 0x75, b: 0x24 }),
            debug: color_to_hex(Rgb { r: 0x94, g: 0x50, b: 0x34 }),
            settings: color_to_hex(Rgb { r: 0x5c, g: 0x60, b: 0x76 }),
            quit: color_to_hex(Rgb { r: 0x96, g: 0x30, b: 0x40 }),
        }
    }
}

impl UiStyle {
    /// Reads each color.
    pub fn from_file(raw: UiStyleFile) -> (r: Result<Self, String>)
        requires
            style_text_safe(raw@),
        ensures
            match r {
                Ok(s) => style_from_text(raw@) == Ok::<UiStyle, Seq<char>>(s),
                Err(e) => style_from_text(raw@) == Err::<UiStyle, Seq<char>>(e@),
            },
    {
        Ok(UiStyle {
            toolbar_fill: parse_color(&raw.toolbar_fill)?,
            toolbar_stroke: parse_color(&raw.toolbar_stroke)?,
            next_card: parse_color(&raw.next_card)?,
            help: parse_color(&raw.help)?,
            deck_menu: parse_color(&raw.deck_menu)?,
            next_deck: parse_color(&raw.next_deck)?,
            debug: parse_color(&raw.debug)?,
            settings: parse_color(&raw.settings)?,
            quit: parse_color(&raw.quit)?,
        })
    }

    /// Writes each color as `#rrggbb`.
    pub fn to_file(&self) -> (r: UiStyleFile)
        ensures
            r@ == style_text(*self),
    {
        UiStyleFile {
            toolbar_fill: color_to_hex(self.toolbar_fill),
            toolbar_stroke: color_to_hex(self.toolbar_stroke),
            next_card: color_to_hex(self.next_card),
            help: color_to_hex(self.help),
            deck_menu: color_to_hex(self.deck_menu),
            next_deck: color_to_hex(self.next_deck),
            debug: color_to_hex(self.debug),
            settings: color_to_hex(self.settings),
            quit: color_to_hex(self.quit),
        }
    }
}

// ---------------------------------------------------------------------------------------------
// Decks and the whole settings
// ---------------------------------------------------------------------------------------------

/// A deck: its name, the directory of its card images, and an optional help image.
#[derive(Clone, Debug)]
pub struct DeckConfig {
    pub name: String,
    pub image_dir: String,
    pub help_image: Option<String>,
}

/// The texts of a `DeckConfig`.
#[verifier::ext_equal]
pub struct DeckText {
    pub name: Seq<char>,
    pub image_dir: Seq<char>,
    pub help_image: Option<Seq<char>>,
}

/// The view of an optional text.
pub open spec fn opt_view(o: Option<String>) -> Option<Seq<char>> {
    match o {
        Some(s) => Some(s@),
        None => None,
    }
}

impl View for DeckConfig {
    type V = DeckText;

    open spec fn view(&self) -> DeckText {
        DeckText { name: self.name@, image_dir: self.image_dir@, help_image: opt_view(self.help_image) }
    }
}

/// A deck as written in the settings file; paths may be relative to the settings directory.
#[derive(Clone, Debug)]
pub struct DeckConfigFile {
    pub name: Option<String>,
    pub image_dir: String,
    pub help_image: Option<String>,
}

/// The texts of a `DeckConfigFile`.
#[verifier::ext_equal]
pub struct DeckFileText {
    pub name: Option<Seq<char>>,
    pub image_dir: Seq<char>,
    pub help_image: Option<Seq<char>>,
}

impl View for DeckConfigFile {
    type V = DeckFileText;

    open spec fn view(&self) -> DeckFileText {
        DeckFileText { name: opt_view(self.name), image_dir: self.image_dir@, help_image: opt_view(self.help_image) }
    }
}

/// The settings file. Sizes are the bit patterns of the file's `f32` values.
#[derive(Debug)]
pub struct AppSettingsFile {
    pub image_dir: Option<String>,
    pub decks: Option<Vec<DeckConfigFile>>,
    pub active_deck: Option<usize>,
    pub card_max_width: u32,
    pub card_max_height: u32,
    pub help_max_width: u32,
    pub help_max_height: u32,
    pub card_corner_radius: u32,
    pub preload_cards: bool,
    pub keybindings: Option<KeyBindingsFile>,
    pub ui_style: Option<UiStyleFile>,
}

/// The contents of an `AppSettingsFile`.
#[verifier::ext_equal]
pub struct SettingsFileText {
    pub image_dir: Option<Seq<char>>,
    pub decks: Option<Seq<DeckFileText>>,
    pub active_deck: Option<usize>,
    pub card_max_width: u32,
    pub card_max_height: u32,
    pub help_max_width: u32,
    pub help_max_height: u32,
    pub card_corner_radius: u32,
    pub preload_cards: bool,
    pub keybindings: Option<KeyBindingsText>,
    pub ui_style: Option<UiStyleText>,
}

/// The views of a list of deck entries.
pub open spec fn deck_files_view(v: Vec<DeckConfigFile>) -> Seq<DeckFileText> {
    v@.map_values(|d: DeckConfigFile| d@)
}

/// The views of a list of decks.
pub open spec fn decks_view(v: Vec<DeckConfig>) -> Seq<DeckText> {
    v@.map_values(|d: DeckConfig| d@)
}

impl View for AppSettingsFile {
    type V = SettingsFileText;

    open spec fn view(&self) -> SettingsFileText {
        SettingsFileText {
            image_dir: opt_view(self.image_dir),
            decks: match self.decks {
                Some(v) => Some(deck_files_view(v)),
                None => None,
            },
            active_deck: self.active_deck,
            card_max_width: self.card_max_width,
            card_max_height: self.card_max_height,
            help_max_width: self.help_max_width,
            help_max_height: self.help_max_height,
            card_corner_radius: self.card_corner_radius,
            preload_cards: self.preload_cards,
            keybindings: match self.keybindings {
                Some(k) => Some(k@),
                None => None,
            },
            ui_style: match self.ui_style {
                Some(u) => Some(u@),
                None => None,
            },
        }
    }
}

/// The checked settings. Sizes are the bit patterns of `f32` values.
#[derive(Clone, Debug)]
pub struct AppSettings {
    pub decks: Vec<DeckConfig>,
    pub active_deck: usize,
    pub card_max_width: u32,
    pub card_max_height: u32,
    pub help_max_width: u32,
    pub help_max_height: u32,
    pub card_corner_radius: u32,
    pub preload_cards: bool,
    pub keybindings: KeyBindings,
    pub ui_style: UiStyle,
}

/// The contents of an `AppSettings`.
#[verifier::ext_equal]
pub struct SettingsText {
    pub decks: Seq<DeckText>,
    pub active_deck: usize,
    pub card_max_width: u32,
    pub card_max_height: u32,
    pub help_max_width: u32,
    pub help_max_height: u32,
    pub card_corner_radius: u32,
    pub preload_cards: bool,
    pub keybindings: KeyBindings,
    pub ui_style: UiStyle,
}

impl View for AppSettings {
    type V = SettingsText;

    open spec fn view(&self) -> SettingsText {
        SettingsText {
            decks: decks_view(self.decks),
            active_deck: self.active_deck,
            card_max_width: self.card_max_width,
            card_max_height: self.card_max_height,
            help_max_width: self.help_max_width,
            help_max_height: self.help_max_height,
            card_corner_radius: self.card_corner_radius,
            preload_cards: self.preload_cards,
            keybindings: self.keybindings,
            ui_style: self.ui_style,
        }
    }
}

/// The optional path resolved against the settings directory.
pub open spec fn resolved_opt(base: Seq<char>, p: Option<Seq<char>>) -> Option<Seq<char>> {
    match p {
        Some(q) => Some(resolved_path(base, q)),
        None => None,
    }
}

/// The deck that the entry at `index` of the `[[decks]]` list gives.
pub open spec fn deck_from_entry(base: Seq<char>, entry: DeckFileText, index: nat) -> DeckText {
    let dir = resolved_path(base, entry.image_dir);
    DeckText {
        name: match entry.name {
            Some(n) => n,
            None => default_deck_name_text(dir, index),
        },
        image_dir: dir,
        help_image: resolved_opt(base, entry.help_image),
    }
}

/// The decks that the settings file gives: its `[[decks]]` list, or else one deck made of its
/// `image_dir`.
pub open spec fn decks_from_file(raw: SettingsFileText, base: Seq<char>) -> Result<Seq<DeckText>, Seq<char>> {
    match raw.decks {
        Some(entries) => if entries.len() == 0 {
            Err("`decks` cannot be empty."@)
        } else {
            Ok(Seq::new(entries.len(), |i: int| deck_from_entry(base, entries[i], i as nat)))
        },
        None => match raw.image_dir {
            Some(d) => Ok(seq![DeckText {
                name: default_deck_name_text(resolved_path(base, d), 0),
                image_dir: resolved_path(base, d),
                help_image: None,
            }]),
            None => Err("Settings must define either `image_dir` or `[[decks]]`."@),
        },
    }
}

/// The key names that the settings file gives, or the defaults.
pub open spec fn file_bindings_text(raw: SettingsFileText) -> KeyBindingsText {
    match raw.keybindings {
        Some(k) => k,
        None => default_bindings_text(),
    }
}

/// The color texts that the settings file gives, or the defaults.
pub open spec fn file_style_text(raw: SettingsFileText) -> UiStyleText {
    match raw.ui_style {
        Some(u) => u,
        None => style_text(default_style()),
    }
}

/// The settings that a settings file gives, or the message of the first rule it breaks: sizes
/// above zero, a corner radius not below zero, at least one deck, key names that name keys, no
/// key bound twice, colors that read. The active deck is clamped to the last deck.
pub open spec fn settings_from_file(raw: SettingsFileText, base: Seq<char>) -> Result<SettingsText, Seq<char>> {
    if f32_at_most_zero(raw.card_max_width) || f32_at_most_zero(raw.card_max_height) {
        Err("Card size values must be greater than zero."@)
    } else if f32_at_most_zero(raw.help_max_width) || f32_at_most_zero(raw.help_max_height) {
        Err("Help size values must be greater than zero."@)
    } else if f32_below_zero(raw.card_corner_radius) {
        Err("Card corner radius cannot be negative."@)
    } else {
        match decks_from_file(raw, base) {
            Err(e) => Err(e),
            Ok(decks) => match bindings_from_text(file_bindings_text(raw)) {
                Err(e) => Err(e),
                Ok(kb) => match duplicate_from(binding_keys(kb), 0) {
                    Some(j) => Err(duplicate_message(kb, j)),
                    None => match style_from_text(file_style_text(raw)) {
                        Err(e) => Err(e),
                        Ok(st) => Ok(SettingsText {
                            decks,
                            active_deck: {
                                let a = match raw.active_deck {
                                    Some(a) => a,
                                    None => 0,
                                };
                                if a < decks.len() {
                                    a
                                } else {
                                    (decks.len() - 1) as usize
                                }
                            },
                            card_max_width: raw.card_max_width,
                            card_max_height: raw.card_max_height,
                            help_max_width: raw.help_max_width,
                            help_max_height: raw.help_max_height,
                            card_corner_radius: raw.card_corner_radius,
                            preload_cards: raw.preload_cards,
                            keybindings: kb,
                            ui_style: st,
                        }),
                    },
                },
            },
        }
    }
}

/// The optional path taken relative to the settings directory.
pub open spec fn relative_opt(base: Seq<char>, p: Option<Seq<char>>) -> Option<Seq<char>> {
    match p {
        Some(q) => Some(relative_path(base, q)),
        None => None,
    }
}

/// The deck entry that a deck is written as.
pub open spec fn deck_entry(base: Seq<char>, d: DeckText) -> DeckFileText {
    DeckFileText { name: Some(d.name), image_dir: relative_path(base, d.image_dir), help_image: relative_opt(base, d.help_image) }
}

/// The settings file that settings are written as: every deck in a `[[decks]]` list with its
/// paths taken relative to the settings directory, and every other value given explicitly.
pub open spec fn settings_to_file(s: SettingsText, base: Seq<char>) -> SettingsFileText {
    SettingsFileText {
        image_dir: None,
        decks: Some(s.decks.map_values(|d: DeckText| deck_entry(base, d))),
        active_deck: Some(s.active_deck),
        card_max_width: s.card_max_width,
        card_max_height: s.card_max_height,
        help_max_width: s.help_max_width,
        help_max_height: s.help_max_height,
        card_corner_radius: s.card_corner_radius,
        preload_cards: s.preload_cards,
        keybindings: Some(bindings_text(s.keybindings)),
        ui_style: Some(style_text(s.ui_style)),
    }
}

/// Settings that satisfy every rule of `settings_from_file`.
pub open spec fn settings_valid(s: SettingsText) -> bool {
    &&& 0 < s.decks.len()
    &&& s.active_deck < s.decks.len()
    &&& !f32_at_most_zero(s.card_max_width)
    &&& !f32_at_most_zero(s.card_max_height)
    &&& !f32_at_most_zero(s.help_max_width)
    &&& !f32_at_most_zero(s.help_max_height)
    &&& !f32_below_zero(s.card_corner_radius)
    &&& bindings_distinct(s.keybindings)
}

/// A path after it is written relative to the settings directory and read back.
pub open spec fn path_after_reload(base: Seq<char>, p: Seq<char>) -> Seq<char> {
    resolved_path(base, relative_path(base, p))
}

/// A deck after it is written and read back: its paths go through `path_after_reload`.
pub open spec fn deck_after_reload(base: Seq<char>, d: DeckText) -> DeckText {
    DeckText {
        name: d.name,
        image_dir: path_after_reload(base, d.image_dir),
        help_image: resolved_opt(base, relative_opt(base, d.help_image)),
    }
}

proof fn lemma_decks_round_trip(s: SettingsText, base: Seq<char>)
    requires
        0 < s.decks.len(),
    ensures
        decks_from_file(settings_to_file(s, base), base) == Ok::<Seq<DeckText>, Seq<char>>(
            s.decks.map_values(|d: DeckText| deck_after_reload(base, d)),
        ),
{
    let entries = s.decks.map_values(|d: DeckText| deck_entry(base, d));
    let decks = Seq::new(entries.len(), |i: int| deck_from_entry(base, entries[i], i as nat));
    let reloaded = s.decks.map_values(|d: DeckText| deck_after_reload(base, d));
    assert forall|i: int| 0 <= i < decks.len() implies decks[i] == reloaded[i] by {
        let d = s.decks[i];
        assert(entries[i] == deck_entry(base, d));
        assert(entries[i].name == Some(d.name));
    }
    assert(decks =~= reloaded);
    assert(settings_to_file(s, base).decks == Some(entries));
}

proof fn lemma_from_file_parts(f: SettingsFileText, base: Seq<char>, decks: Seq<DeckText>, kb: KeyBindings, st: UiStyle)
    requires
        !f32_at_most_zero(f.card_max_width),
        !f32_at_most_zero(f.card_max_height),
        !f32_at_most_zero(f.help_max_width),
        !f32_at_most_zero(f.help_max_height),
        !f32_below_zero(f.card_corner_radius),
        decks_from_file(f, base) == Ok::<Seq<DeckText>, Seq<char>>(decks),
        bindings_from_text(file_bindings_text(f)) == Ok::<KeyBindings, Seq<char>>(kb),
        duplicate_from(binding_keys(kb), 0) is None,
        style_from_text(file_style_text(f)) == Ok::<UiStyle, Seq<char>>(st),
        f.active_deck matches Some(a) && a < decks.len(),
    ensures
        settings_from_file(f, base) == Ok::<SettingsText, Seq<char>>(SettingsText {
            decks,
            active_deck: f.active_deck->0,
            card_max_width: f.card_max_width,
            card_max_height: f.card_max_height,
            help_max_width: f.help_max_width,
            help_max_height: f.help_max_height,
            card_corner_radius: f.card_corner_radius,
            preload_cards: f.preload_cards,
            keybindings: kb,
            ui_style: st,
        }),
{
}

/// Writing valid settings and reading the file back gives the same settings, except that each
/// deck path `p` comes back as `path_after_reload(base, p)`; and the file's colors can be read.
pub proof fn lemma_settings_round_trip(s: SettingsText, base: Seq<char>)
    requires
        settings_valid(s),
    ensures
        file_colors_split(settings_to_file(s, base), base),
        settings_from_file(settings_to_file(s, base), base) == Ok::<SettingsText, Seq<char>>(
            SettingsText { decks: s.decks.map_values(|d: DeckText| deck_after_reload(base, d)), ..s },
        ),
{
    let f = settings_to_file(s, base);
    assert(file_style_text(f) == style_text(s.ui_style));
    assert(file_bindings_text(f) == bindings_text(s.keybindings));
    assert(style_from_text(file_style_text(f)) == Ok::<UiStyle, Seq<char>>(s.ui_style)) by {
        lemma_style_round_trip(s.ui_style);
    }
    assert(bindings_from_text(file_bindings_text(f)) == Ok::<KeyBindings, Seq<char>>(s.keybindings)) by {
        lemma_bindings_round_trip(s.keybindings);
    }
    let reloaded = s.decks.map_values(|d: DeckText| deck_after_reload(base, d));
    assert(decks_from_file(f, base) == Ok::<Seq<DeckText>, Seq<char>>(reloaded)) by {
        lemma_decks_round_trip(s, base);
    }
    lemma_bindings_no_duplicate(s.keybindings);
    assert(file_colors_split(f, base)) by {
        lemma_style_round_trip(s.ui_style);
    }
    lemma_from_file_parts(f, base, reloaded, s.keybindings, s.ui_style);
}

/// Bindings that bind no key twice have no duplicate.
pub proof fn lemma_bindings_no_duplicate(kb: KeyBindings)
    requires
        bindings_distinct(kb),
    ensures
        duplicate_from(binding_keys(kb), 0) is None,
{
    lemma_distinct_has_no_duplicate(binding_keys(kb), 0);
}

/// Keys that are pairwise distinct have no duplicate.
pub proof fn lemma_distinct_has_no_duplicate(keys: Seq<Key>, j: int)
    requires
        forall|a: int, b: int| 0 <= a < b < keys.len() ==> keys[a] != keys[b],
        0 <= j,
    ensures
        duplicate_from(keys, j) is None,
    decreases keys.len() - j,
{
    if j < keys.len() {
        if keys.take(j).contains(keys[j]) {
            let a = choose|a: int| 0 <= a < keys.take(j).len() && keys.take(j)[a] == keys[j];
            assert(keys[a] == keys[j]);
        }
        lemma_distinct_has_no_duplicate(keys, j + 1);
    }
}

/// Reading a settings file gets as far as its colors: the sizes, the radius, the decks and the
/// key bindings all pass.
pub open spec fn reaches_colors(raw: SettingsFileText, base: Seq<char>) -> bool {
    &&& !f32_at_most_zero(raw.card_max_width) && !f32_at_most_zero(raw.card_max_height)
    &&& !f32_at_most_zero(raw.help_max_width) && !f32_at_most_zero(raw.help_max_height)
    &&& !f32_below_zero(raw.card_corner_radius)
    &&& decks_from_file(raw, base) is Ok
    &&& bindings_from_text(file_bindings_text(raw)) matches Ok(kb) && duplicate_from(binding_keys(kb), 0) is None
}

/// The color texts of a settings file cannot make reading it panic: where reading gets as far
/// as the colors, each color text it reaches can be cut into its components.
pub open spec fn file_colors_split(raw: SettingsFileText, base: Seq<char>) -> bool {
    reaches_colors(raw, base) ==> style_text_safe(file_style_text(raw))
}

/// Resolves each deck entry against the settings directory.
fn build_deck_list(entries: &Vec<DeckConfigFile>, base_dir: &str) -> (r: Vec<DeckConfig>)
    ensures
        decks_view(r) == Seq::new(entries@.len(), |i: int| deck_from_entry(base_dir@, entries@[i]@, i as nat)),
{
    let mut out: Vec<DeckConfig> = Vec::new();
    let mut i: usize = 0;
    while i < entries.len()
        invariant
            i <= entries@.len(),
            out@.len() == i,
            forall|j: int| 0 <= j < i ==> (#[trigger] out@[j])@ == deck_from_entry(base_dir@, entries@[j]@, j as nat),
        decreases entries@.len() - i,
    {
        let entry = &entries[i];
        let image_dir = resolve_image_dir(base_dir, entry.image_dir.as_str());
        let help_image = match &entry.help_image {
            Some(path) => Some(resolve_image_dir(base_dir, path.as_str())),
            None => None,
        };
        let name = match &entry.name {
            Some(n) => n.clone(),
            None => default_deck_name(image_dir.as_str(), i),
        };
        out.push(DeckConfig { name, image_dir, help_image });
        i = i + 1;
    }
    assert(decks_view(out) =~= Seq::new(entries@.len(), |i: int| deck_from_entry(base_dir@, entries@[i]@, i as nat)));
    out
}

/// The decks that the settings file gives.
pub fn build_decks(raw: &AppSettingsFile, base_dir: &str) -> (r: Result<Vec<DeckConfig>, String>)
    ensures
        match r {
            Ok(d) => decks_from_file(raw@, base_dir@) == Ok::<Seq<DeckText>, Seq<char>>(decks_view(d)),
            Err(e) => decks_from_file(raw@, base_dir@) == Err::<Seq<DeckText>, Seq<char>>(e@),
        },
{
    if let Some(entries) = &raw.decks {
        if entries.len() == 0 {
            let mut e = String::new();
            e.append("`decks` cannot be empty.");
            return Err(e);
        }
        let decks = build_deck_list(entries, base_dir);
        let ghost ev = deck_files_view(*entries);
        assert(Seq::new(ev.len(), |i: int| deck_from_entry(base_dir@, ev[i], i as nat)) =~= decks_view(decks));
        return Ok(decks);
    }
    if let Some(image_dir) = &raw.image_dir {
        let resolved = resolve_image_dir(base_dir, image_dir.as_str());
        let name = default_deck_name(resolved.as_str(), 0);
        let v = vec![DeckConfig { name, image_dir: resolved, help_image: None }];
        assert(decks_view(v) =~= seq![v@[0]@]);
        return Ok(v);
    }
    let mut e = String::new();
    e.append("Settings must define either `image_dir` or `[[decks]]`.");
    Err(e)
}

/// A literal message as an owned text.
fn message(m: &str) -> (r: String)
    ensures
        r@ == m@,
{
    m.to_owned()
}

impl AppSettings {
    /// The settings for the deck currently selected: the active deck is within the list.
    pub open spec fn well_formed(&self) -> bool {
        0 < self.decks@.len() && self.active_deck < self.decks@.len()
    }

    /// Checks a settings file and resolves its paths against the settings directory.
    pub fn from_file(raw: AppSettingsFile, base_dir: &str) -> (r: Result<Self, String>)
        requires
            file_colors_split(raw@, base_dir@),
        ensures
            match r {
                Ok(s) => settings_from_file(raw@, base_dir@) == Ok::<SettingsText, Seq<char>>(s@) && s.well_formed()
                    && settings_valid(s@) && (file_sizes_are_numbers(raw@) ==> keeps_the_rules(raw@, s@)),
                Err(e) => settings_from_file(raw@, base_dir@) == Err::<SettingsText, Seq<char>>(e@),
            },
    {
        if f32_bits_at_most_zero(raw.card_max_width) || f32_bits_at_most_zero(raw.card_max_height) {
            return Err(message("Card size values must be greater than zero."));
        }
        if f32_bits_at_most_zero(raw.help_max_width) || f32_bits_at_most_zero(raw.help_max_height) {
            return Err(message("Help size values must be greater than zero."));
        }
        if f32_bits_below_zero(raw.card_corner_radius) {
            return Err(message("Card corner radius cannot be negative."));
        }
        let decks = build_decks(&raw, base_dir)?;
        let requested = match raw.active_deck {
            Some(a) => a,
            None => 0,
        };
        let last = decks.len() - 1;
        let active_deck = if requested < last { requested } else { last };
        let kb_file = match raw.keybindings {
            Some(k) => k,
            None => KeyBindingsFile::default(),
        };
        let keybindings = KeyBindings::from_file(kb_file)?;
        keybindings.validate_unique()?;
        let style_file = match raw.ui_style {
            Some(u) => u,
            None => UiStyleFile::default(),
        };
        proof {
            lemma_style_round_trip(default_style());
        }
        let ui_style = UiStyle::from_file(style_file)?;
        proof {
            if file_sizes_are_numbers(raw@) {
                lemma_read_settings_keep_the_rules(raw@, base_dir@);
            }
        }
        Ok(AppSettings {
            decks,
            active_deck,
            card_max_width: raw.card_max_width,
            card_max_height: raw.card_max_height,
            help_max_width: raw.help_max_width,
            help_max_height: raw.help_max_height,
            card_corner_radius: raw.card_corner_radius,
            preload_cards: raw.preload_cards,
            keybindings,
            ui_style,
        })
    }

    /// Writes the settings, with deck paths taken relative to the settings directory; each
    /// written path resolves back to the deck's path where that is absolute or lies inside the
    /// directory.
    pub fn to_file(&self, base_dir: &str) -> (r: AppSettingsFile)
        ensures
            r@ == settings_to_file(self@, base_dir@),
            r.decks matches Some(entries) && entries@.len() == self.decks@.len() && forall|i: int|
                0 <= i < entries@.len() ==> #[trigger] written_deck_resolves_back(base_dir@, self.decks@[i], entries@[i]),
    {
        let mut entries: Vec<DeckConfigFile> = Vec::new();
        let mut i: usize = 0;
        while i < self.decks.len()
            invariant
                i <= self.decks@.len(),
                entries@.len() == i,
                forall|j: int| 0 <= j < i ==> (#[trigger] entries@[j])@ == deck_entry(base_dir@, self.decks@[j]@),
                forall|j: int| 0 <= j < i ==> #[trigger] written_deck_resolves_back(base_dir@, self.decks@[j], entries@[j]),
            decreases self.decks@.len() - i,
        {
            let deck = &self.decks[i];
            let help_image = match &deck.help_image {
                Some(path) => Some(relative_to(base_dir, path.as_str())),
                None => None,
            };
            entries.push(DeckConfigFile {
                name: Some(deck.name.clone()),
                image_dir: relative_to(base_dir, deck.image_dir.as_str()),
                help_image,
            });
            i = i + 1;
        }
        assert(deck_files_view(entries) =~= decks_view(self.decks).map_values(|d: DeckText| deck_entry(base_dir@, d)));
        let r = AppSettingsFile {
            image_dir: None,
            decks: Some(entries),
            active_deck: Some(self.active_deck),
            card_max_width: self.card_max_width,
            card_max_height: self.card_max_height,
            help_max_width: self.help_max_width,
            help_max_height: self.help_max_height,
            card_corner_radius: self.card_corner_radius,
            preload_cards: self.preload_cards,
            keybindings: Some(self.keybindings.to_file()),
            ui_style: Some(self.ui_style.to_file()),
        };
        assert(r@ =~= settings_to_file(self@, base_dir@));
        r
    }

    /// The active deck.
    pub fn current_deck(&self) -> (r: &DeckConfig)
        requires
            self.active_deck < self.decks@.len(),
        ensures
            *r == self.decks@[self.active_deck as int],
    {
        &self.decks[self.active_deck]
    }

    /// Makes the next deck active, wrapping around after the last.
    pub fn advance_deck(&mut self)
        requires
            old(self).decks@.len() > 0,
            old(self).active_deck < usize::MAX,
        ensures
            final(self).active_deck == (old(self).active_deck + 1) % (old(self).decks@.len() as int),
            final(self).decks == old(self).decks,
            final(self)@ == (SettingsText { active_deck: final(self).active_deck, ..old(self)@ }),
    {
        self.active_deck = (self.active_deck + 1) % self.decks.len();
    }
}

/// The written entry of a deck resolves back to it: its image directory and, where it has one,
/// its help image.
pub open spec fn written_deck_resolves_back(base: Seq<char>, deck: DeckConfig, entry: DeckConfigFile) -> bool {
    &&& resolves_back(base, deck.image_dir@, entry.image_dir@)
    &&& deck.help_image matches Some(h) ==> entry.help_image matches Some(w) && resolves_back(base, h@, w@)
}

/// The decks of a settings file fail exactly when its `[[decks]]` list is empty, or when it has
/// neither that list nor an `image_dir`; an empty list is an error even beside an `image_dir`.
/// A non-empty list gives one deck per entry, with its paths resolved and, without a name, the
/// default name by position; without a list, `image_dir` gives one deck named by default.
pub proof fn lemma_decks_from_file_cases(raw: SettingsFileText, base: Seq<char>)
    ensures
        decks_from_file(raw, base) is Err <==> (raw.decks matches Some(e) && e.len() == 0) || (raw.decks is None
            && raw.image_dir is None),
        raw.decks matches Some(e) && e.len() == 0 ==> decks_from_file(raw, base) == Err::<Seq<DeckText>, Seq<char>>(
            "`decks` cannot be empty."@,
        ),
        raw.decks is None && raw.image_dir is None ==> decks_from_file(raw, base) == Err::<Seq<DeckText>, Seq<char>>(
            "Settings must define either `image_dir` or `[[decks]]`."@,
        ),
        raw.decks matches Some(e) ==> (e.len() > 0 ==> (decks_from_file(raw, base) matches Ok(d) && d.len() == e.len()
            && forall|i: int| 0 <= i < d.len() ==> {
                &&& #[trigger] d[i].image_dir == resolved_path(base, e[i].image_dir)
                &&& d[i].help_image == resolved_opt(base, e[i].help_image)
                &&& d[i].name == match e[i].name {
                    Some(n) => n,
                    None => default_deck_name_text(d[i].image_dir, i as nat),
                }
            })),
        raw.image_dir matches Some(dir) ==> (raw.decks is None ==> decks_from_file(raw, base) == Ok::<Seq<DeckText>, Seq<char>>(
            seq![DeckText {
                name: default_deck_name_text(resolved_path(base, dir), 0),
                image_dir: resolved_path(base, dir),
                help_image: None,
            }],
        )),
{
}

/// `f32` NaN, on a bit pattern.
pub open spec fn f32_is_nan(bits: u32) -> bool {
    (0x7f80_0000 < bits && bits < 0x8000_0000) || 0xff80_0000 < bits
}

/// `x > 0.0` for the `f32` `x` whose bit pattern is `bits`.
pub open spec fn f32_above_zero(bits: u32) -> bool {
    0 < bits && bits <= 0x7f80_0000
}

/// `x >= 0.0` for the `f32` `x` whose bit pattern is `bits`.
pub open spec fn f32_at_least_zero(bits: u32) -> bool {
    bits <= 0x7f80_0000 || bits == 0x8000_0000
}

/// The sign tests on `f32` bit patterns agree with each other as IEEE-754 comparisons do: for
/// a number, `x < 0` is the opposite of `x >= 0` and `x <= 0` the opposite of `x > 0`; zero of
/// either sign is at most zero and not below it; NaN is neither below nor at most zero.
pub proof fn lemma_f32_signs(bits: u32)
    ensures
        !f32_is_nan(bits) ==> (f32_below_zero(bits) <==> !f32_at_least_zero(bits)),
        !f32_is_nan(bits) ==> (f32_at_most_zero(bits) <==> !f32_above_zero(bits)),
        f32_below_zero(bits) ==> f32_at_most_zero(bits),
        f32_is_nan(bits) ==> !f32_below_zero(bits) && !f32_at_most_zero(bits),
        bits == 0 || bits == 0x8000_0000 ==> f32_at_most_zero(bits) && !f32_below_zero(bits),
{
}

/// The corner radius refuses only negative numbers: with sizes above zero and a radius that
/// is zero or more, whether the file reads depends on its decks, keys and colors alone.
pub proof fn lemma_radius_refuses_only_negatives(raw: SettingsFileText, base: Seq<char>)
    requires
        f32_above_zero(raw.card_max_width) && f32_above_zero(raw.card_max_height),
        f32_above_zero(raw.help_max_width) && f32_above_zero(raw.help_max_height),
        f32_at_least_zero(raw.card_corner_radius),
    ensures
        settings_from_file(raw, base) is Ok <==> ({
            &&& decks_from_file(raw, base) is Ok
            &&& bindings_from_text(file_bindings_text(raw)) is Ok
            &&& duplicate_from(binding_keys(bindings_from_text(file_bindings_text(raw))->Ok_0), 0) is None
            &&& style_from_text(file_style_text(raw)) is Ok
        }),
{
}

/// Keys with no duplicate are pairwise distinct.
pub proof fn lemma_no_duplicate_is_distinct(keys: Seq<Key>, j: int)
    requires
        0 <= j <= keys.len(),
        duplicate_from(keys, j) is None,
        forall|a: int, b: int| 0 <= a < b < j ==> keys[a] != keys[b],
    ensures
        forall|a: int, b: int| 0 <= a < b < keys.len() ==> keys[a] != keys[b],
    decreases keys.len() - j,
{
    if j < keys.len() {
        assert forall|a: int| 0 <= a < j implies keys[a] != keys[j] by {
            if keys[a] == keys[j] {
                assert(keys.take(j)[a] == keys[j]);
            }
        }
        lemma_no_duplicate_is_distinct(keys, j + 1);
    }
}

/// None of the sizes of a settings file is NaN.
pub open spec fn file_sizes_are_numbers(raw: SettingsFileText) -> bool {
    &&& !f32_is_nan(raw.card_max_width) && !f32_is_nan(raw.card_max_height)
    &&& !f32_is_nan(raw.help_max_width) && !f32_is_nan(raw.help_max_height)
    &&& !f32_is_nan(raw.card_corner_radius)
}

/// Settings read from a file keep its rules: the sizes are above zero and the corner radius
/// is not below it, there is a deck, the active deck is the one asked for clamped to the last,
/// no key is bound twice, and preloading is as the file says.
pub open spec fn keeps_the_rules(raw: SettingsFileText, s: SettingsText) -> bool {
    &&& f32_above_zero(s.card_max_width) && f32_above_zero(s.card_max_height)
    &&& f32_above_zero(s.help_max_width) && f32_above_zero(s.help_max_height)
    &&& f32_at_least_zero(s.card_corner_radius)
    &&& 0 < s.decks.len()
    &&& s.active_deck == ({
        let a: int = match raw.active_deck {
            Some(a) => a as int,
            None => 0,
        };
        if a < s.decks.len() - 1 { a } else { s.decks.len() - 1 }
    })
    &&& bindings_distinct(s.keybindings)
    &&& s.preload_cards == raw.preload_cards
}

/// Settings read from a file whose sizes are numbers keep the file's rules.
pub proof fn lemma_read_settings_keep_the_rules(raw: SettingsFileText, base: Seq<char>)
    requires
        file_sizes_are_numbers(raw),
    ensures
        settings_from_file(raw, base) matches Ok(s) ==> keeps_the_rules(raw, s),
{
    if let Ok(s) = settings_from_file(raw, base) {
        lemma_no_duplicate_is_distinct(binding_keys(s.keybindings), 0);
    }
}

/// The settings used when no settings file can be read.
pub open spec fn default_settings_text() -> SettingsText {
    SettingsText {
        decks: seq![DeckText { name: "Deck 1"@, image_dir: Seq::empty(), help_image: None }],
        active_deck: 0,
        card_max_width: 0x43d2_0000,
        card_max_height: 0x4420_0000,
        help_max_width: 0x4461_0000,
        help_max_height: 0x4489_8000,
        card_corner_radius: 0x4180_0000,
        preload_cards: true,
        keybindings: default_bindings(),
        ui_style: default_style(),
    }
}

/// The settings used when no settings file can be read: one unnamed deck `Deck 1` without an
/// image directory, cards of at most 420 x 640, help of at most 900 x 1100, a corner radius of
/// 16, preloading on, and the default keys and colors.
pub fn default_app_settings() -> (r: AppSettings)
    ensures
        r@ == default_settings_text(),
        r.well_formed(),
        settings_valid(r@),
{
    let decks = vec![DeckConfig { name: message("Deck 1"), image_dir: String::new(), help_image: None }];
    let keybindings = KeyBindings {
        next_card: Key::Space,
        toggle_help: Key::H,
        toggle_deck_menu: Key::M,
        toggle_full_screen: Key::F,
        next_deck: Key::Tab,
        toggle_debug: Key::D,
        open_settings: Key::S,
        quit: Key::Q,
    };
    let ui_style = UiStyle {
        toolbar_fill: Rgb { r: 0x22, g: 0x25, b: 0x2c },
        toolbar_stroke: Rgb { r: 0x40, g: 0x46, b: 0x52 },
        next_card: Rgb { r: 0x2c, g: 0x7a, b: 0x5e },
        help: Rgb { r: 0x37, g: 0x68, b: 0xb4 },
        deck_menu: Rgb { r: 0x6c, g: 0x4e, b: 0xa8 },
        next_deck: Rgb { r: 0xb2, g: 0x75, b: 0x24 },
        debug: Rgb { r: 0x94, g: 0x50, b: 0x34 },
        settings: Rgb { r: 0x5c, g: 0x60, b: 0x76 },
        quit: Rgb { r: 0x96, g: 0x30, b: 0x40 },
    };
    proof {
        lemma_default_bindings();
    }
    let r = AppSettings {
        decks,
        active_deck: 0,
        card_max_width: 0x43d2_0000,
        card_max_height: 0x4420_0000,
        help_max_width: 0x4461_0000,
        help_max_height: 0x4489_8000,
        card_corner_radius: 0x4180_0000,
        preload_cards: true,
        keybindings,
        ui_style,
    };
    assert(decks_view(r.decks) =~= default_settings_text().decks);
    r
}

// ---------------------------------------------------------------------------------------------
// Finding the settings file
// ---------------------------------------------------------------------------------------------

/// What to do in one directory searched for the settings.
#[derive(Clone, Copy, Debug, PartialEq, Eq, Structural)]
pub enum SettingsLookup {
    /// Read the settings file of this directory.
    ReadSettings,
    /// Copy the default settings file to the settings file, then read that.
    CopyDefault,
    /// Look in the next directory.
    TryNext,
}

/// The settings file of a directory wins over its default file; a directory with neither is
/// passed over.
pub fn settings_lookup(settings_is_file: bool, default_is_file: bool) -> (r: SettingsLookup)
    ensures
        settings_is_file ==> r == SettingsLookup::ReadSettings,
        !settings_is_file && default_is_file ==> r == SettingsLookup::CopyDefault,
        !settings_is_file && !default_is_file ==> r == SettingsLookup::TryNext,
{
    if settings_is_file {
        SettingsLookup::ReadSettings
    } else if default_is_file {
        SettingsLookup::CopyDefault
    } else {
        SettingsLookup::TryNext
    }
}

/// The path of the settings file in a directory.
pub fn settings_path_in(root: &str) -> (r: String)
    ensures
        r@ == join_path(root@, SETTINGS_FILE_NAME@),
{
    join(root, SETTINGS_FILE_NAME)
}

/// The path of the default settings file in a directory.
pub fn default_settings_path_in(root: &str) -> (r: String)
    ensures
        r@ == join_path(root@, DEFAULT_SETTINGS_FILE_NAME@),
{
    join(root, DEFAULT_SETTINGS_FILE_NAME)
}

/// The message when no directory holds a settings file or a default one.
pub fn missing_settings_message() -> (r: String)
    ensures
        r@ == "Could not find `"@ + DEFAULT_SETTINGS_FILE_NAME@ + "`."@,
{
    let mut e = String::new();
    e.append("Could not find `");
    e.append(DEFAULT_SETTINGS_FILE_NAME);
    e.append("`.");
    e
}

} // verus!
