//! The state of the card viewer and the decisions it takes: which card to show next, which
//! deck is active, which panels are open, which images are cached, and what the key presses
//! of a frame do. The window, the textures and the files stay with the caller, which performs
//! what these functions decide.

use rand::prelude::IndexedRandom;
use vstd::prelude::*;
use vstd::string::*;
use crate::image_loader::texts;
use crate::keys::{key_label, Key, KeyDisplayExt};
use crate::paths::{parent_path, path_parent};
use crate::settings::{
    binding_keys, bindings_distinct, default_app_settings, settings_to_file, settings_valid, written_deck_resolves_back,
    AppSettings, AppSettingsFile, BindingAction, KeyBindings, SETTINGS_FILE_NAME,
};

verus! {

/// What the viewer shows and knows, apart from its window and its textures.
pub struct CardAppState {
    pub settings: AppSettings,
    pub settings_path: String,
    /// The card images of the active deck.
    pub image_paths: Vec<String>,
    /// The images whose textures are cached.
    pub loaded_paths: Vec<String>,
    /// The key bindings being edited in the settings window.
    pub draft_keybindings: Option<KeyBindings>,
    pub show_debug: bool,
    pub hide_ui_chrome: bool,
    pub show_deck_menu: bool,
    pub show_help: bool,
    pub show_settings: bool,
    /// The card shown.
    pub current_path: Option<String>,
    pub error_message: Option<String>,
    pub settings_message: Option<String>,
}

/// The view of an optional text.
pub open spec fn opt_text(o: Option<String>) -> Option<Seq<char>> {
    match o {
        Some(s) => Some(s@),
        None => None,
    }
}

/// The message for a deck without card images.
pub open spec fn no_images_message(dir: Seq<char>) -> Seq<char> {
    "No images found in `"@ + dir + "`."@
}

/// The message when no card can be chosen.
pub open spec fn no_choice_message() -> Seq<char> {
    "Unable to choose a card image."@
}

/// The message after the settings are saved.
pub open spec fn saved_message(path: Seq<char>) -> Seq<char> {
    "Saved to "@ + path
}

/// The message when the settings path has no directory.
pub open spec fn no_parent_message(path: Seq<char>) -> Seq<char> {
    "Cannot determine parent directory for "@ + path
}

/// What the key presses of a frame ask of the caller before the rest is handled.
#[derive(Clone, Copy, Debug, PartialEq, Eq, Structural)]
pub enum KeyOutcome {
    /// Close the window; nothing else is handled.
    Quit,
    /// The next deck was made active: list its images, finish the deck load, save the
    /// settings, then handle the rest of the keys.
    DeckSwitched,
    /// Handle the rest of the keys.
    Continue,
}

/// The buttons of the toolbar, each standing for the action of one key binding.
#[derive(Clone, Copy, Debug, PartialEq, Eq, Structural)]
pub enum ToolbarButton {
    NextCard,
    Help,
    DeckMenu,
    NextDeck,
    FullScreen,
    Debug,
    Settings,
    Quit,
}

/// The position, in `binding_keys`, of the binding whose action a button performs.
pub open spec fn button_binding(b: ToolbarButton) -> int {
    match b {
        ToolbarButton::NextCard => 0,
        ToolbarButton::Help => 1,
        ToolbarButton::DeckMenu => 2,
        ToolbarButton::FullScreen => 3,
        ToolbarButton::NextDeck => 4,
        ToolbarButton::Debug => 5,
        ToolbarButton::Settings => 6,
        ToolbarButton::Quit => 7,
    }
}

/// The key bound to a button's action.
pub open spec fn button_key(kb: KeyBindings, b: ToolbarButton) -> Key {
    binding_keys(kb)[button_binding(b)]
}

/// With no key bound twice, pressing the key at `idx` alone presses none of the other bound keys.
proof fn lemma_only_that_key(kb: KeyBindings, idx: int)
    requires
        bindings_distinct(kb),
        0 <= idx < 8,
    ensures
        forall|j: int| 0 <= j < 8 ==> (seq![binding_keys(kb)[idx]].contains(#[trigger] binding_keys(kb)[j]) <==> j == idx),
{
    let ks = binding_keys(kb);
    let k = ks[idx];
    assert(seq![k][0] == k);
    assert forall|j: int| 0 <= j < 8 implies (seq![k].contains(#[trigger] ks[j]) <==> j == idx) by {
        if j != idx && seq![k].contains(ks[j]) {
            let t = choose|t: int| 0 <= t < 1 && seq![k][t] == ks[j];
            assert(t == 0);
            if j < idx {
                assert(ks[j] != ks[idx]);
            } else {
                assert(ks[idx] != ks[j]);
            }
        }
    }
}

/// Calls `IndexedRandom::choose` with the thread's random generator: the claim is that it
/// gives `None` exactly for an empty list and otherwise one of its elements.
#[verifier::external_body]
fn choose_index(candidates: &Vec<usize>) -> (r: Option<usize>)
    ensures
        r is None <==> candidates@.len() == 0,
        r matches Some(i) ==> candidates@.contains(i),
{
    candidates.choose(&mut rand::rng()).copied()
}

/// Whether a list of texts holds a text.
fn texts_contain(v: &Vec<String>, p: &str) -> (r: bool)
    ensures
        r == texts(*v).contains(p@),
{
    let q = p.to_owned();
    let mut i: usize = 0;
    while i < v.len()
        invariant
            i <= v@.len(),
            q@ == p@,
            forall|j: int| 0 <= j < i ==> texts(*v)[j] != p@,
        decreases v@.len() - i,
    {
        if v[i] == q {
            assert(texts(*v)[i as int] == p@);
            return true;
        }
        i = i + 1;
    }
    false
}

/// Whether a key is among the keys pressed.
fn key_in(pressed: &Vec<Key>, k: Key) -> (r: bool)
    ensures
        r == pressed@.contains(k),
{
    let mut i: usize = 0;
    while i < pressed.len()
        invariant
            i <= pressed@.len(),
            forall|j: int| 0 <= j < i ==> pressed@[j] != k,
        decreases pressed@.len() - i,
    {
        if pressed[i] == k {
            return true;
        }
        i = i + 1;
    }
    false
}

fn text_of(m: &str) -> (r: String)
    ensures
        r@ == m@,
{
    m.to_owned()
}

impl CardAppState {
    /// The settings have an active deck and satisfy every rule of the settings file, the card
    /// shown is one of the deck's images, and no image is cached twice.
    pub open spec fn well_formed(&self) -> bool {
        &&& self.settings.well_formed()
        &&& settings_valid(self.settings@)
        &&& (self.current_path matches Some(p) ==> texts(self.image_paths).contains(p@))
        &&& texts(self.loaded_paths).no_duplicates()
    }

    /// The image directory of the active deck.
    pub open spec fn deck_dir(&self) -> Seq<char> {
        self.settings@.decks[self.settings.active_deck as int].image_dir
    }

    /// A state with every panel closed and nothing cached or shown.
    pub fn new(settings: AppSettings, settings_path: String, image_paths: Vec<String>, error_message: Option<String>) -> (r: Self)
        requires
            settings.well_formed(),
            settings_valid(settings@),
        ensures
            r.well_formed(),
            r.settings == settings,
            r.settings_path == settings_path,
            r.image_paths == image_paths,
            r.error_message == error_message,
            r.loaded_paths@.len() == 0,
            r.draft_keybindings is None,
            !r.show_debug && !r.hide_ui_chrome && !r.show_deck_menu && !r.show_help && !r.show_settings,
            r.current_path is None,
            r.settings_message is None,
    {
        let r = CardAppState {
            settings,
            settings_path,
            image_paths,
            loaded_paths: Vec::new(),
            draft_keybindings: None,
            show_debug: false,
            hide_ui_chrome: false,
            show_deck_menu: false,
            show_help: false,
            show_settings: false,
            current_path: None,
            error_message,
            settings_message: None,
        };
        assert(texts(r.loaded_paths) =~= Seq::empty());
        r
    }

    /// The state when the settings could not be loaded: the default settings, the settings
    /// file name as path, no images, and the error shown.
    pub fn from_load_error(error: String) -> (r: Self)
        ensures
            r.well_formed(),
            r.settings@ == crate::settings::default_settings_text(),
            r.settings_path@ == SETTINGS_FILE_NAME@,
            r.image_paths@.len() == 0,
            opt_text(r.error_message) == Some(error@),
    {
        CardAppState::new(default_app_settings(), text_of(SETTINGS_FILE_NAME), Vec::new(), Some(error))
    }

    /// The state once the settings are loaded and the active deck's directory is listed: a deck
    /// without images is an error.
    pub fn from_loaded(settings: AppSettings, settings_path: String, image_paths: Vec<String>) -> (r: Self)
        requires
            settings.well_formed(),
            settings_valid(settings@),
        ensures
            r.well_formed(),
            r.settings == settings,
            r.settings_path == settings_path,
            r.image_paths == image_paths,
            image_paths@.len() == 0 ==> opt_text(r.error_message) == Some(no_images_message(r.deck_dir())),
            image_paths@.len() > 0 ==> r.error_message is None,
            r.loaded_paths@.len() == 0,
            r.draft_keybindings is None,
            !r.show_debug && !r.hide_ui_chrome && !r.show_deck_menu && !r.show_help && !r.show_settings,
            r.current_path is None,
            r.settings_message is None,
    {
        if image_paths.len() == 0 {
            let mut e = String::new();
            e.append("No images found in `");
            e.append(settings.current_deck().image_dir.as_str());
            e.append("`.");
            return CardAppState::new(settings, settings_path, image_paths, Some(e));
        }
        CardAppState::new(settings, settings_path, image_paths, None)
    }

    /// Whether the image at `i` may be drawn next: the deck's only image, or an image other
    /// than the one shown.
    pub open spec fn candidate(&self, i: int) -> bool {
        &&& 0 <= i < self.image_paths@.len()
        &&& (self.image_paths@.len() == 1 || opt_text(self.current_path) != Some(texts(self.image_paths)[i]))
    }

    /// Whether some image may be drawn next.
    pub open spec fn has_candidate(&self) -> bool {
        exists|i: int| self.candidate(i)
    }

    /// The positions of the images that may be drawn next, each once.
    pub fn card_candidates(&self) -> (r: Vec<usize>)
        ensures
            r@.no_duplicates(),
            forall|i: int| 0 <= i < r@.len() ==> self.candidate(#[trigger] r@[i] as int),
            forall|i: int| self.candidate(i) ==> r@.contains(i as usize),
    {
        let n = self.image_paths.len();
        let mut r: Vec<usize> = Vec::new();
        if n == 1 {
            r.push(0);
            assert(r@ =~= seq![0usize]);
            assert forall|i: int| self.candidate(i) implies r@.contains(i as usize) by {
                assert(r@[0] == 0);
            }
            return r;
        }
        let mut i: usize = 0;
        while i < n
            invariant
                n == self.image_paths@.len(),
                n != 1,
                i <= n,
                r@.no_duplicates(),
                forall|j: int| 0 <= j < r@.len() ==> self.candidate(#[trigger] r@[j] as int) && r@[j] < i,
                forall|j: int| 0 <= j < i && self.candidate(j) ==> r@.contains(j as usize),
            decreases n - i,
        {
            let keep = match &self.current_path {
                Some(c) => !(self.image_paths[i] == *c),
                None => true,
            };
            assert(texts(self.image_paths)[i as int] == self.image_paths@[i as int]@);
            assert(keep == self.candidate(i as int));
            let ghost old_r = r@;
            if keep {
                r.push(i);
                assert(r@[r@.len() - 1] == i);
                assert forall|j: int| 0 <= j < i && self.candidate(j) implies r@.contains(j as usize) by {
                    let k = choose|k: int| 0 <= k < old_r.len() && old_r[k] == j as usize;
                    assert(r@[k] == j as usize);
                }
            }
            i = i + 1;
        }
        r
    }

    /// Shows the image at the chosen position, one of `card_candidates`; `None`, which the
    /// random choice gives only when there is no candidate, is an error.
    pub fn show_chosen_card(&mut self, chosen: Option<usize>)
        requires
            old(self).well_formed(),
            chosen matches Some(i) ==> old(self).candidate(i as int),
        ensures
            final(self).well_formed(),
            old(self).image_paths@.len() == 0 ==> *final(self) == (CardAppState {
                error_message: final(self).error_message,
                ..*old(self)
            }) && opt_text(final(self).error_message) == Some(no_images_message(old(self).deck_dir())),
            old(self).image_paths@.len() > 0 ==> match chosen {
                Some(i) => *final(self) == (CardAppState {
                    current_path: final(self).current_path,
                    error_message: None,
                    ..*old(self)
                }) && opt_text(final(self).current_path) == Some(texts(old(self).image_paths)[i as int]),
                None => *final(self) == (CardAppState {
                    error_message: final(self).error_message,
                    ..*old(self)
                }) && opt_text(final(self).error_message) == Some(no_choice_message()),
            },
    {
        if self.image_paths.len() == 0 {
            let mut e = String::new();
            e.append("No images found in `");
            e.append(self.settings.current_deck().image_dir.as_str());
            e.append("`.");
            self.error_message = Some(e);
            return;
        }
        match chosen {
            Some(i) => {
                let path = self.image_paths[i].clone();
                self.current_path = Some(path);
                self.error_message = None;
                assert(texts(self.image_paths)[i as int] == self.image_paths@[i as int]@);
            },
            None => {
                self.error_message = Some(text_of("Unable to choose a card image."));
            },
        }
    }

    /// Draws the next card at random among `card_candidates`: with two or more images, never
    /// the card shown.
    pub fn show_random_card(&mut self)
        requires
            old(self).well_formed(),
        ensures
            final(self).well_formed(),
            old(self).image_paths@.len() == 0 ==> *final(self) == (CardAppState {
                error_message: final(self).error_message,
                ..*old(self)
            }) && opt_text(final(self).error_message) == Some(no_images_message(old(self).deck_dir())),
            old(self).image_paths@.len() > 0 && old(self).has_candidate() ==> *final(self) == (CardAppState {
                current_path: final(self).current_path,
                error_message: None,
                ..*old(self)
            }) && exists|i: int| old(self).candidate(i) && opt_text(final(self).current_path) == Some(
                texts(old(self).image_paths)[i],
            ),
            old(self).image_paths@.len() > 0 && !old(self).has_candidate() ==> *final(self) == (CardAppState {
                error_message: final(self).error_message,
                ..*old(self)
            }) && opt_text(final(self).error_message) == Some(no_choice_message()),
    {
        let candidates = self.card_candidates();
        let chosen = choose_index(&candidates);
        proof {
            if let Some(i) = chosen {
                let k = choose|k: int| 0 <= k < candidates@.len() && candidates@[k] == i;
                assert(self.candidate(candidates@[k] as int));
            }
            if self.has_candidate() {
                let i = choose|i: int| self.candidate(i);
                assert(candidates@.contains(i as usize));
            }
        }
        self.show_chosen_card(chosen);
    }

    /// The images still to load in the background: none when preloading is off, else the
    /// deck's images that are not cached, in deck order.
    pub open spec fn pending_paths(&self) -> Seq<Seq<char>> {
        if self.settings.preload_cards {
            texts(self.image_paths).filter(|p: Seq<char>| !texts(self.loaded_paths).contains(p))
        } else {
            Seq::empty()
        }
    }

    /// The images still to load in the background (`pending_paths`).
    pub fn preload_paths(&self) -> (r: Vec<String>)
        ensures
            texts(r) == self.pending_paths(),
    {
        let mut r: Vec<String> = Vec::new();
        if !self.settings.preload_cards {
            assert(texts(r) =~= Seq::empty());
            return r;
        }
        let ghost pred = |p: Seq<char>| !texts(self.loaded_paths).contains(p);
        let mut i: usize = 0;
        assert(texts(self.image_paths).take(0).filter(pred) =~= Seq::empty()) by {
            reveal(Seq::filter);
        }
        assert(texts(r) =~= Seq::empty());
        while i < self.image_paths.len()
            invariant
                i <= self.image_paths@.len(),
                pred == (|p: Seq<char>| !texts(self.loaded_paths).contains(p)),
                texts(r) == texts(self.image_paths).take(i as int).filter(pred),
            decreases self.image_paths@.len() - i,
        {
            let path = &self.image_paths[i];
            let ghost before = texts(self.image_paths).take(i as int);
            assert(texts(self.image_paths).take(i + 1) =~= before.push(path@));
            proof {
                before.lemma_filter_push(path@, pred);
            }
            if !texts_contain(&self.loaded_paths, path.as_str()) {
                let ghost old_r = texts(r);
                r.push(path.clone());
                assert(texts(r) =~= old_r.push(path@));
            }
            i = i + 1;
        }
        assert(texts(self.image_paths).take(self.image_paths@.len() as int) =~= texts(self.image_paths));
        r
    }

    /// The start of the viewer: without an error and with images, a first card is drawn; the
    /// result is the images to load in the background.
    pub fn startup(&mut self) -> (r: Vec<String>)
        requires
            old(self).well_formed(),
            old(self).current_path is None,
        ensures
            final(self).well_formed(),
            *final(self) == (CardAppState { current_path: final(self).current_path, ..*old(self) }),
            old(self).error_message is Some || old(self).image_paths@.len() == 0 ==> final(self).current_path is None
                && texts(r) == Seq::<Seq<char>>::empty(),
            old(self).error_message is None && old(self).image_paths@.len() > 0 ==> final(self).current_path is Some
                && texts(r) == old(self).pending_paths(),
    {
        if self.error_message.is_none() && self.image_paths.len() > 0 {
            proof {
                assert(self.candidate(0));
            }
            self.show_random_card();
            return self.preload_paths();
        }
        let r: Vec<String> = Vec::new();
        assert(texts(r) =~= Seq::empty());
        r
    }

    /// The first part of switching to the active deck: the cache is emptied, panels close,
    /// messages clear, and no card is shown until the deck's images are listed.
    pub fn begin_deck_load(&mut self)
        requires
            old(self).well_formed(),
        ensures
            final(self).well_formed(),
            *final(self) == (CardAppState {
                loaded_paths: final(self).loaded_paths,
                draft_keybindings: None,
                show_deck_menu: false,
                show_help: false,
                show_settings: false,
                current_path: None,
                error_message: None,
                settings_message: None,
                ..*old(self)
            }),
            final(self).loaded_paths@.len() == 0,
    {
        self.loaded_paths = Vec::new();
        self.show_deck_menu = false;
        self.show_help = false;
        self.show_settings = false;
        self.current_path = None;
        self.error_message = None;
        self.settings_message = None;
        self.draft_keybindings = None;
        assert(texts(self.loaded_paths) =~= Seq::empty());
    }

    /// The second part of switching decks, once the active deck's directory is listed: a deck
    /// without images is an error, otherwise a first card is drawn. The result is the images to
    /// load in the background.
    pub fn finish_deck_load(&mut self, image_paths: Vec<String>) -> (r: Vec<String>)
        requires
            old(self).well_formed(),
            old(self).current_path is None,
        ensures
            final(self).well_formed(),
            *final(self) == (CardAppState {
                image_paths: image_paths,
                current_path: final(self).current_path,
                error_message: final(self).error_message,
                ..*old(self)
            }),
            image_paths@.len() == 0 ==> final(self).current_path is None
                && opt_text(final(self).error_message) == Some(no_images_message(old(self).deck_dir()))
                && texts(r) == Seq::<Seq<char>>::empty(),
            image_paths@.len() > 0 ==> final(self).current_path is Some && final(self).error_message is None
                && texts(r) == final(self).pending_paths(),
    {
        self.image_paths = image_paths;
        if self.image_paths.len() == 0 {
            let mut e = String::new();
            e.append("No images found in `");
            e.append(self.settings.current_deck().image_dir.as_str());
            e.append("`.");
            self.error_message = Some(e);
            let r: Vec<String> = Vec::new();
            assert(texts(r) =~= Seq::empty());
            return r;
        }
        proof {
            assert(self.candidate(0));
        }
        self.show_random_card();
        self.preload_paths()
    }

    /// A card decoded in the background: it is cached unless it already is. The result says
    /// whether the caller should make its texture.
    pub fn on_card_decoded(&mut self, path: &str) -> (r: bool)
        requires
            old(self).well_formed(),
        ensures
            final(self).well_formed(),
            r == !texts(old(self).loaded_paths).contains(path@),
            r ==> texts(final(self).loaded_paths) == texts(old(self).loaded_paths).push(path@),
            *final(self) == (CardAppState { loaded_paths: final(self).loaded_paths, ..*old(self) }),
            !r ==> final(self).loaded_paths == old(self).loaded_paths,
    {
        if texts_contain(&self.loaded_paths, path) {
            return false;
        }
        self.cache(path);
        true
    }

    fn cache(&mut self, path: &str)
        requires
            old(self).well_formed(),
            !texts(old(self).loaded_paths).contains(path@),
        ensures
            final(self).well_formed(),
            texts(final(self).loaded_paths) == texts(old(self).loaded_paths).push(path@),
            *final(self) == (CardAppState { loaded_paths: final(self).loaded_paths, ..*old(self) }),
    {
        let ghost before = texts(self.loaded_paths);
        self.loaded_paths.push(path.to_owned());
        assert(texts(self.loaded_paths) =~= before.push(path@));
        assert forall|a: int, b: int| 0 <= a < texts(self.loaded_paths).len() && 0 <= b < texts(self.loaded_paths).len() && a != b
            implies texts(self.loaded_paths)[a] != texts(self.loaded_paths)[b] by {
            if a == before.len() {
                assert(!before.contains(before[b]) ==> false);
            } else if b == before.len() {
                assert(before[a] == texts(self.loaded_paths)[a]);
            }
        }
    }

    /// A card that failed to load in the background: its error is shown.
    pub fn on_load_error(&mut self, error: String)
        ensures
            *final(self) == (CardAppState { error_message: Some(error), ..*old(self) }),
    {
        self.error_message = Some(error);
    }

    /// Looks up a texture in the cache; a hit clears the error shown.
    pub fn take_cached_texture(&mut self, path: &str) -> (r: bool)
        ensures
            r == texts(old(self).loaded_paths).contains(path@),
            r ==> *final(self) == (CardAppState { error_message: None, ..*old(self) }),
            !r ==> *final(self) == *old(self),
    {
        if texts_contain(&self.loaded_paths, path) {
            self.error_message = None;
            return true;
        }
        false
    }

    /// An image decoded on demand: it is cached and the error shown clears.
    pub fn on_texture_decoded(&mut self, path: &str)
        requires
            old(self).well_formed(),
        ensures
            final(self).well_formed(),
            texts(final(self).loaded_paths).contains(path@),
            forall|p: Seq<char>| texts(old(self).loaded_paths).contains(p) ==> texts(final(self).loaded_paths).contains(p),
            forall|p: Seq<char>| texts(final(self).loaded_paths).contains(p) ==> texts(old(self).loaded_paths).contains(p) || p == path@,
            *final(self) == (CardAppState { loaded_paths: final(self).loaded_paths, error_message: None, ..*old(self) }),
    {
        if !texts_contain(&self.loaded_paths, path) {
            let ghost before = texts(self.loaded_paths);
            self.cache(path);
            assert(texts(self.loaded_paths).last() == path@);
            assert forall|p: Seq<char>| before.contains(p) implies texts(self.loaded_paths).contains(p) by {
                let k = choose|k: int| 0 <= k < before.len() && before[k] == p;
                assert(texts(self.loaded_paths)[k] == p);
            }
            assert forall|p: Seq<char>| texts(self.loaded_paths).contains(p) implies before.contains(p) || p == path@ by {
                let k = choose|k: int| 0 <= k < texts(self.loaded_paths).len() && texts(self.loaded_paths)[k] == p;
                if k < before.len() {
                    assert(before[k] == p);
                }
            }
        }
        self.error_message = None;
    }

    /// An image that failed to decode on demand: its error is shown.
    pub fn on_texture_failed(&mut self, error: String)
        ensures
            *final(self) == (CardAppState { error_message: Some(error), ..*old(self) }),
    {
        self.error_message = Some(error);
    }

    /// Picks a deck from the deck menu. Picking the active deck or no deck only closes the
    /// menu; another deck becomes active and its load begins. The result says whether the
    /// caller should list the deck's images, finish the load and save the settings.
    pub fn select_deck(&mut self, index: usize) -> (r: bool)
        requires
            old(self).well_formed(),
        ensures
            final(self).well_formed(),
            r == (index < old(self).settings.decks@.len() && index != old(self).settings.active_deck),
            !r ==> *final(self) == (CardAppState { show_deck_menu: false, ..*old(self) }),
            r ==> *final(self) == (CardAppState {
                settings: AppSettings { active_deck: index, ..old(self).settings },
                loaded_paths: final(self).loaded_paths,
                draft_keybindings: None,
                show_deck_menu: false,
                show_help: false,
                show_settings: false,
                current_path: None,
                error_message: None,
                settings_message: None,
                ..*old(self)
            }) && final(self).loaded_paths@.len() == 0
                && final(self).settings@ == (crate::settings::SettingsText { active_deck: index, ..old(self).settings@ }),
    {
        if index >= self.settings.decks.len() || index == self.settings.active_deck {
            self.show_deck_menu = false;
            return false;
        }
        self.settings.active_deck = index;
        self.begin_deck_load();
        true
    }

    /// Makes the next deck active, wrapping around, and begins its load; the caller then lists
    /// its images, finishes the load and saves the settings.
    pub fn switch_to_next_deck(&mut self)
        requires
            old(self).well_formed(),
        ensures
            final(self).well_formed(),
            final(self).settings.active_deck == (old(self).settings.active_deck + 1) % (old(self).settings.decks@.len() as int),
            final(self).settings@ == (crate::settings::SettingsText {
                active_deck: final(self).settings.active_deck,
                ..old(self).settings@
            }),
            *final(self) == (CardAppState {
                settings: final(self).settings,
                loaded_paths: final(self).loaded_paths,
                draft_keybindings: None,
                show_deck_menu: false,
                show_help: false,
                show_settings: false,
                current_path: None,
                error_message: None,
                settings_message: None,
                ..*old(self)
            }),
            final(self).loaded_paths@.len() == 0,
    {
        let n = self.settings.decks.len();
        assert(self.settings.active_deck < n);
        self.settings.advance_deck();
        self.begin_deck_load();
    }

    /// Shows or hides the help image.
    pub fn set_help_visible(&mut self, visible: bool)
        ensures
            *final(self) == (CardAppState { show_help: visible, ..*old(self) }),
    {
        self.show_help = visible;
    }

    /// Hides the help and draws the next card.
    pub fn advance_to_next_card(&mut self)
        requires
            old(self).well_formed(),
        ensures
            final(self).well_formed(),
            *final(self) == (CardAppState {
                show_help: false,
                current_path: final(self).current_path,
                error_message: final(self).error_message,
                ..*old(self)
            }),
            old(self).image_paths@.len() > 0 && old(self).has_candidate() ==> final(self).error_message is None
                && exists|i: int| old(self).candidate(i) && opt_text(final(self).current_path) == Some(
                texts(old(self).image_paths)[i],
            ),
            old(self).image_paths@.len() == 0 ==> final(self).current_path == old(self).current_path
                && opt_text(final(self).error_message) == Some(no_images_message(old(self).deck_dir())),
            old(self).image_paths@.len() > 0 && !old(self).has_candidate() ==> final(self).current_path == old(self).current_path
                && opt_text(final(self).error_message) == Some(no_choice_message()),
    {
        self.set_help_visible(false);
        proof {
            assert forall|i: int| self.candidate(i) == old(self).candidate(i) by {}
        }
        self.show_random_card();
    }

    /// Hides or shows everything but the card.
    pub fn toggle_ui_chrome(&mut self)
        ensures
            *final(self) == (CardAppState { hide_ui_chrome: !old(self).hide_ui_chrome, ..*old(self) }),
    {
        self.hide_ui_chrome = !self.hide_ui_chrome;
    }

    /// Shows or hides the debug details.
    pub fn toggle_debug(&mut self)
        ensures
            *final(self) == (CardAppState { show_debug: !old(self).show_debug, ..*old(self) }),
    {
        self.show_debug = !self.show_debug;
    }

    /// Opens or closes the deck menu.
    pub fn toggle_deck_menu(&mut self)
        ensures
            *final(self) == (CardAppState { show_deck_menu: !old(self).show_deck_menu, ..*old(self) }),
    {
        self.show_deck_menu = !self.show_deck_menu;
    }

    /// Opens the settings window with the current bindings as the draft.
    pub fn open_settings(&mut self)
        ensures
            *final(self) == (CardAppState {
                show_settings: true,
                draft_keybindings: Some(old(self).settings.keybindings),
                settings_message: None,
                ..*old(self)
            }),
    {
        self.show_settings = true;
        self.draft_keybindings = Some(self.settings.keybindings);
        self.settings_message = None;
    }

    /// Closes the settings window and drops the draft.
    pub fn close_settings(&mut self)
        ensures
            *final(self) == (CardAppState { show_settings: false, draft_keybindings: None, ..*old(self) }),
    {
        self.show_settings = false;
        self.draft_keybindings = None;
    }

    /// Closes the settings window if it is open, opens it otherwise.
    pub fn toggle_settings(&mut self)
        ensures
            old(self).show_settings ==> *final(self) == (CardAppState {
                show_settings: false,
                draft_keybindings: None,
                ..*old(self)
            }),
            !old(self).show_settings ==> *final(self) == (CardAppState {
                show_settings: true,
                draft_keybindings: Some(old(self).settings.keybindings),
                settings_message: None,
                ..*old(self)
            }),
    {
        if self.show_settings {
            self.close_settings();
        } else {
            self.open_settings();
        }
    }

    /// The settings file to write: the settings with paths relative to the directory of the
    /// settings path, or an error when that path has no directory.
    pub fn settings_file_to_save(&self) -> (r: Result<AppSettingsFile, String>)
        ensures
            match parent_path(self.settings_path@) {
                Some(base) => r matches Ok(f) && f@ == settings_to_file(self.settings@, base) && (
                f.decks matches Some(entries) && entries@.len() == self.settings.decks@.len() && forall|i: int|
                    0 <= i < entries@.len() ==> #[trigger] written_deck_resolves_back(
                        base,
                        self.settings.decks@[i],
                        entries@[i],
                    )),
                None => r matches Err(e) && e@ == no_parent_message(self.settings_path@),
            },
    {
        match path_parent(self.settings_path.as_str()) {
            Some(base) => Ok(self.settings.to_file(base.as_str())),
            None => {
                let mut e = String::new();
                e.append("Cannot determine parent directory for ");
                e.append(self.settings_path.as_str());
                Err(e)
            },
        }
    }

    /// The outcome of saving the settings: a failure shows its error, a success says where the
    /// settings went.
    pub fn record_save_result(&mut self, result: Result<(), String>)
        ensures
            match result {
                Ok(()) => *final(self) == (CardAppState {
                    settings_message: final(self).settings_message,
                    error_message: None,
                    ..*old(self)
                }) && opt_text(final(self).settings_message) == Some(saved_message(old(self).settings_path@)),
                Err(e) => *final(self) == (CardAppState {
                    error_message: Some(e),
                    settings_message: None,
                    ..*old(self)
                }),
            },
    {
        match result {
            Ok(()) => {
                let mut m = String::new();
                m.append("Saved to ");
                m.append(self.settings_path.as_str());
                self.settings_message = Some(m);
                self.error_message = None;
            },
            Err(e) => {
                self.error_message = Some(e);
                self.settings_message = None;
            },
        }
    }

    /// How many of the deck's images are cached.
    pub fn current_deck_loaded_count(&self) -> (r: usize)
        ensures
            r == texts(self.image_paths).filter(|p: Seq<char>| texts(self.loaded_paths).contains(p)).len(),
    {
        let ghost pred = |p: Seq<char>| texts(self.loaded_paths).contains(p);
        let mut count: usize = 0;
        let mut i: usize = 0;
        assert(texts(self.image_paths).take(0).filter(pred) =~= Seq::empty()) by {
            reveal(Seq::filter);
        }
        while i < self.image_paths.len()
            invariant
                i <= self.image_paths@.len(),
                pred == (|p: Seq<char>| texts(self.loaded_paths).contains(p)),
                count == texts(self.image_paths).take(i as int).filter(pred).len(),
                count <= i,
            decreases self.image_paths@.len() - i,
        {
            let path = &self.image_paths[i];
            let ghost before = texts(self.image_paths).take(i as int);
            assert(texts(self.image_paths).take(i + 1) =~= before.push(path@));
            proof {
                before.lemma_filter_push(path@, pred);
            }
            if texts_contain(&self.loaded_paths, path.as_str()) {
                count = count + 1;
            }
            i = i + 1;
        }
        assert(texts(self.image_paths).take(self.image_paths@.len() as int) =~= texts(self.image_paths));
        count
    }

    /// Whether the active deck's help image is cached.
    pub fn current_help_loaded(&self) -> (r: bool)
        requires
            self.settings.well_formed(),
        ensures
            r == (self.settings@.decks[self.settings.active_deck as int].help_image matches Some(h)
                && texts(self.loaded_paths).contains(h)),
    {
        match &self.settings.current_deck().help_image {
            Some(path) => texts_contain(&self.loaded_paths, path.as_str()),
            None => false,
        }
    }

    /// The panels that the keys pressed toggle: debug, full screen, deck menu and help.
    fn toggle_panels_for_keys(&mut self, pressed: &Vec<Key>)
        ensures
            ({
                let kb = old(self).settings.keybindings;
                *final(self) == (CardAppState {
                    show_debug: old(self).show_debug != pressed@.contains(kb.toggle_debug),
                    hide_ui_chrome: old(self).hide_ui_chrome != pressed@.contains(kb.toggle_full_screen),
                    show_deck_menu: old(self).show_deck_menu != pressed@.contains(kb.toggle_deck_menu),
                    show_help: old(self).show_help != pressed@.contains(kb.toggle_help),
                    ..*old(self)
                })
            }),
    {
        let kb = self.settings.keybindings;
        if key_in(pressed, kb.toggle_debug) {
            self.toggle_debug();
        }
        if key_in(pressed, kb.toggle_full_screen) {
            self.toggle_ui_chrome();
        }
        if key_in(pressed, kb.toggle_deck_menu) {
            self.toggle_deck_menu();
        }
        if key_in(pressed, kb.toggle_help) {
            let visible = !self.show_help;
            self.set_help_visible(visible);
        }
    }

    /// The key presses of a frame, up to switching decks: quit ends the frame; then debug,
    /// full screen, deck menu and help toggle; then the next deck becomes active.
    pub fn handle_keys_before_deck_switch(&mut self, pressed: &Vec<Key>) -> (r: KeyOutcome)
        requires
            old(self).well_formed(),
        ensures
            final(self).well_formed(),
            keys_before_deck_switch(*old(self), pressed@, r, *final(self)),
    {
        let kb = self.settings.keybindings;
        if key_in(pressed, kb.quit) {
            return KeyOutcome::Quit;
        }
        self.toggle_panels_for_keys(pressed);
        if key_in(pressed, kb.next_deck) {
            self.switch_to_next_deck();
            return KeyOutcome::DeckSwitched;
        }
        KeyOutcome::Continue
    }

    /// A click on a toolbar button: it does what pressing the key bound to its action alone does.
    /// Quit, the panel toggles and the next deck go as the keys handled before switching decks;
    /// the next card and the settings window go as the keys handled after it, the keys before
    /// it changing nothing.
    pub fn press_toolbar_button(&mut self, button: ToolbarButton) -> (r: KeyOutcome)
        requires
            old(self).well_formed(),
        ensures
            final(self).well_formed(),
            ({
                let pressed = seq![button_key(old(self).settings.keybindings, button)];
                if button == ToolbarButton::NextCard || button == ToolbarButton::Settings {
                    &&& r == KeyOutcome::Continue
                    &&& keys_before_deck_switch(*old(self), pressed, KeyOutcome::Continue, *old(self))
                    &&& keys_after_deck_switch(*old(self), pressed, *final(self))
                } else {
                    keys_before_deck_switch(*old(self), pressed, r, *final(self))
                }
            }),
            button == ToolbarButton::NextCard ==> *final(self) == (CardAppState {
                show_help: false,
                current_path: final(self).current_path,
                error_message: final(self).error_message,
                ..*old(self)
            }),
            button == ToolbarButton::Settings && old(self).show_settings ==> *final(self) == (CardAppState {
                show_settings: false,
                draft_keybindings: None,
                ..*old(self)
            }),
            button == ToolbarButton::Settings && !old(self).show_settings ==> *final(self) == (CardAppState {
                show_settings: true,
                draft_keybindings: Some(old(self).settings.keybindings),
                settings_message: None,
                ..*old(self)
            }),
    {
        proof {
            let kb = self.settings.keybindings;
            lemma_only_that_key(kb, button_binding(button));
            assert(binding_keys(kb)[0] == kb.next_card && binding_keys(kb)[1] == kb.toggle_help);
            assert(binding_keys(kb)[2] == kb.toggle_deck_menu && binding_keys(kb)[3] == kb.toggle_full_screen);
            assert(binding_keys(kb)[4] == kb.next_deck && binding_keys(kb)[5] == kb.toggle_debug);
            assert(binding_keys(kb)[6] == kb.open_settings && binding_keys(kb)[7] == kb.quit);
        }
        match button {
            ToolbarButton::NextCard => {
                self.advance_to_next_card();
                KeyOutcome::Continue
            },
            ToolbarButton::Help => {
                let visible = !self.show_help;
                self.set_help_visible(visible);
                KeyOutcome::Continue
            },
            ToolbarButton::DeckMenu => {
                self.toggle_deck_menu();
                KeyOutcome::Continue
            },
            ToolbarButton::NextDeck => {
                self.switch_to_next_deck();
                KeyOutcome::DeckSwitched
            },
            ToolbarButton::FullScreen => {
                self.toggle_ui_chrome();
                KeyOutcome::Continue
            },
            ToolbarButton::Debug => {
                self.toggle_debug();
                KeyOutcome::Continue
            },
            ToolbarButton::Settings => {
                self.toggle_settings();
                KeyOutcome::Continue
            },
            ToolbarButton::Quit => KeyOutcome::Quit,
        }
    }

    /// The key presses of a frame after switching decks: the settings window opens or closes,
    /// then the next card is drawn.
    pub fn handle_keys_after_deck_switch(&mut self, pressed: &Vec<Key>)
        requires
            old(self).well_formed(),
        ensures
            final(self).well_formed(),
            keys_after_deck_switch(*old(self), pressed@, *final(self)),
    {
        let kb = self.settings.keybindings;
        if key_in(pressed, kb.open_settings) {
            self.toggle_settings();
        }
        proof {
            assert forall|i: int| self.candidate(i) == old(self).candidate(i) by {}
        }
        if key_in(pressed, kb.next_card) {
            self.advance_to_next_card();
        }
    }

    /// Starts editing the bindings, keeping a draft that is already there; the result is the
    /// draft.
    pub fn ensure_draft(&mut self) -> (r: KeyBindings)
        ensures
            r == match old(self).draft_keybindings {
                Some(d) => d,
                None => old(self).settings.keybindings,
            },
            *final(self) == (CardAppState { draft_keybindings: Some(r), ..*old(self) }),
    {
        let d = match self.draft_keybindings {
            Some(d) => d,
            None => self.settings.keybindings,
        };
        self.draft_keybindings = Some(d);
        d
    }

    /// Binds an action of the draft to a key.
    pub fn set_draft_key(&mut self, action: BindingAction, key: Key)
        ensures
            match old(self).draft_keybindings {
                Some(d) => final(self).draft_keybindings matches Some(d2) && crate::settings::binding_keys(d2)
                    == crate::settings::binding_keys(d).update(crate::settings::action_index(action), key),
                None => final(self).draft_keybindings is None,
            },
            *final(self) == (CardAppState { draft_keybindings: final(self).draft_keybindings, ..*old(self) }),
    {
        if let Some(d) = self.draft_keybindings {
            let mut d2 = d;
            d2.set_key(action, key);
            self.draft_keybindings = Some(d2);
        }
    }

    /// Saves the draft: a draft that binds a key twice is refused with its error; otherwise it
    /// becomes the bindings. The result says whether the caller should write the settings.
    pub fn save_draft(&mut self) -> (r: bool)
        requires
            old(self).well_formed(),
        ensures
            final(self).well_formed(),
            match old(self).draft_keybindings {
                None => !r && *final(self) == *old(self),
                Some(d) => if crate::settings::bindings_distinct(d) {
                    r && *final(self) == (CardAppState {
                        settings: AppSettings { keybindings: d, ..old(self).settings },
                        ..*old(self)
                    })
                } else {
                    !r && *final(self) == (CardAppState {
                        error_message: final(self).error_message,
                        settings_message: None,
                        ..*old(self)
                    }) && opt_text(final(self).error_message) == Some(crate::settings::duplicate_message(
                        d,
                        crate::settings::duplicate_from(crate::settings::binding_keys(d), 0)->0,
                    ))
                },
            },
    {
        match self.draft_keybindings {
            None => false,
            Some(d) => match d.validate_unique() {
                Ok(()) => {
                    self.settings.keybindings = d;
                    true
                },
                Err(e) => {
                    self.error_message = Some(e);
                    self.settings_message = None;
                    false
                },
            },
        }
    }

    /// The entries of the deck menu: each deck's name, the active one marked ` (Current)`.
    pub fn deck_menu_labels(&self) -> (r: Vec<String>)
        ensures
            r@.len() == self.settings.decks@.len(),
            forall|i: int| 0 <= i < r@.len() ==> (#[trigger] r@[i])@ == if i == self.settings.active_deck {
                self.settings.decks@[i].name@ + " (Current)"@
            } else {
                self.settings.decks@[i].name@
            },
    {
        let mut r: Vec<String> = Vec::new();
        let mut i: usize = 0;
        while i < self.settings.decks.len()
            invariant
                i <= self.settings.decks@.len(),
                r@.len() == i,
                forall|j: int| 0 <= j < i ==> (#[trigger] r@[j])@ == if j == self.settings.active_deck {
                    self.settings.decks@[j].name@ + " (Current)"@
                } else {
                    self.settings.decks@[j].name@
                },
            decreases self.settings.decks@.len() - i,
        {
            let mut label = self.settings.decks[i].name.clone();
            if i == self.settings.active_deck {
                label.append(" (Current)");
            }
            r.push(label);
            i = i + 1;
        }
        r
    }
}

/// What the key presses of a frame do up to switching decks, from `old` to `new` with outcome
/// `r`: quit changes nothing; otherwise debug, full screen, deck menu and help toggle for their
/// keys, and the next-deck key makes the next deck active with the cache emptied, the card
/// cleared and the panels closed.
pub open spec fn keys_before_deck_switch(old: CardAppState, pressed: Seq<Key>, r: KeyOutcome, new: CardAppState) -> bool {
    let kb = old.settings.keybindings;
    let toggled = CardAppState {
        show_debug: old.show_debug != pressed.contains(kb.toggle_debug),
        hide_ui_chrome: old.hide_ui_chrome != pressed.contains(kb.toggle_full_screen),
        show_deck_menu: old.show_deck_menu != pressed.contains(kb.toggle_deck_menu),
        show_help: old.show_help != pressed.contains(kb.toggle_help),
        ..old
    };
    &&& pressed.contains(kb.quit) ==> r == KeyOutcome::Quit && new == old
    &&& !pressed.contains(kb.quit) && !pressed.contains(kb.next_deck) ==> r == KeyOutcome::Continue
        && new == toggled
    &&& !pressed.contains(kb.quit) && pressed.contains(kb.next_deck) ==> r == KeyOutcome::DeckSwitched
        && new == (CardAppState {
            settings: new.settings,
            loaded_paths: new.loaded_paths,
            draft_keybindings: None,
            show_deck_menu: false,
            show_help: false,
            show_settings: false,
            current_path: None,
            error_message: None,
            settings_message: None,
            ..toggled
        })
        && new.settings.active_deck == (old.settings.active_deck + 1) % (old.settings.decks@.len() as int)
        && new.settings@ == (crate::settings::SettingsText {
            active_deck: new.settings.active_deck,
            ..old.settings@
        })
        && new.loaded_paths@.len() == 0
}

/// What the key presses of a frame do after switching decks, from `old` to `new`: the settings
/// window opens or closes for its key, and the next-card key hides the help and draws a card.
pub open spec fn keys_after_deck_switch(old: CardAppState, pressed: Seq<Key>, new: CardAppState) -> bool {
    let kb = old.settings.keybindings;
    &&& new.settings == old.settings
    &&& new.image_paths == old.image_paths
    &&& new.loaded_paths == old.loaded_paths
    &&& new.show_settings == (old.show_settings != pressed.contains(kb.open_settings))
    &&& pressed.contains(kb.next_card) ==> !new.show_help
    &&& pressed.contains(kb.next_card) && old.image_paths@.len() > 0 && old.has_candidate() ==> new.error_message is None
        && exists|i: int| old.candidate(i) && opt_text(new.current_path) == Some(texts(old.image_paths)[i])
    &&& !pressed.contains(kb.next_card) ==> new.current_path == old.current_path && new.error_message == old.error_message
    &&& !pressed.contains(kb.open_settings) && !pressed.contains(kb.next_card) ==> new == old
}

/// The line that lists the keys: `Press <next card> for next card, <help> for help, ...`.
pub open spec fn controls_text(kb: KeyBindings) -> Seq<char> {
    "Press "@ + key_label(kb.next_card) + " for next card, "@ + key_label(kb.toggle_help) + " for help, "@
        + key_label(kb.toggle_deck_menu) + " for deck menu, "@ + key_label(kb.toggle_full_screen)
        + " for full screen, "@ + key_label(kb.open_settings) + " for settings, "@ + key_label(kb.next_deck)
        + " for next deck, "@ + key_label(kb.quit) + " to quit."@
}

/// The line that lists the keys, shown under the title.
pub fn controls_help_text(kb: &KeyBindings) -> (r: String)
    ensures
        r@ == controls_text(*kb),
{
    let mut s = String::new();
    s.append("Press ");
    s.append(kb.next_card.label());
    s.append(" for next card, ");
    s.append(kb.toggle_help.label());
    s.append(" for help, ");
    s.append(kb.toggle_deck_menu.label());
    s.append(" for deck menu, ");
    s.append(kb.toggle_full_screen.label());
    s.append(" for full screen, ");
    s.append(kb.open_settings.label());
    s.append(" for settings, ");
    s.append(kb.next_deck.label());
    s.append(" for next deck, ");
    s.append(kb.quit.label());
    s.append(" to quit.");
    s
}

/// The hint under the toolbar: `Press <full screen> to hide UI. Press <debug> to toggle debug details.`
pub fn chrome_hint_text(kb: &KeyBindings) -> (r: String)
    ensures
        r@ == "Press "@ + key_label(kb.toggle_full_screen) + " to hide UI. Press "@ + key_label(kb.toggle_debug)
            + " to toggle debug details."@,
{
    let mut s = String::new();
    s.append("Press ");
    s.append(kb.toggle_full_screen.label());
    s.append(" to hide UI. Press ");
    s.append(kb.toggle_debug.label());
    s.append(" to toggle debug details.");
    s
}

/// A button label: the action's name and, in brackets, its key.
pub fn button_label(name: &str, key: Key) -> (r: String)
    ensures
        r@ == name@ + " ("@ + key_label(key) + ")"@,
{
    let mut s = name.to_owned();
    s.append(" (");
    s.append(key.label());
    s.append(")");
    s
}

/// With two different images in the deck, a next card can always be drawn, and every card that
/// may be drawn differs from the card shown.
pub proof fn lemma_next_card_differs(s: CardAppState)
    requires
        exists|i: int, j: int| 0 <= i < s.image_paths@.len() && 0 <= j < s.image_paths@.len()
            && texts(s.image_paths)[i] != texts(s.image_paths)[j],
    ensures
        s.has_candidate(),
        forall|i: int| #[trigger] s.candidate(i) ==> opt_text(s.current_path) != Some(texts(s.image_paths)[i]),
{
    let (i, j) = choose|i: int, j: int| 0 <= i < s.image_paths@.len() && 0 <= j < s.image_paths@.len()
        && texts(s.image_paths)[i] != texts(s.image_paths)[j];
    assert(s.image_paths@.len() != 1);
    if opt_text(s.current_path) == Some(texts(s.image_paths)[i]) {
        assert(s.candidate(j));
    } else {
        assert(s.candidate(i));
    }
}

/// The next-card key draws the next card: with two different images in the deck, pressing it
/// hides the help, clears the error and shows one of the deck's images other than the card
/// shown before.
pub proof fn lemma_next_card_key_draws(old: CardAppState, pressed: Seq<Key>, new: CardAppState)
    requires
        keys_after_deck_switch(old, pressed, new),
        pressed.contains(old.settings.keybindings.next_card),
        exists|i: int, j: int| 0 <= i < old.image_paths@.len() && 0 <= j < old.image_paths@.len()
            && texts(old.image_paths)[i] != texts(old.image_paths)[j],
    ensures
        !new.show_help,
        new.error_message is None,
        new.current_path matches Some(p) && texts(old.image_paths).contains(p@) && opt_text(old.current_path) != Some(p@),
{
    lemma_next_card_differs(old);
    let i = choose|i: int| old.candidate(i) && opt_text(new.current_path) == Some(texts(old.image_paths)[i]);
    assert(texts(old.image_paths)[i] == old.image_paths@[i]@);
}

/// The settings key opens the settings window when it is closed and closes it when it is open;
/// keys other than the settings and next-card keys change nothing after a deck switch.
pub proof fn lemma_settings_key_toggles(old: CardAppState, pressed: Seq<Key>, new: CardAppState)
    requires
        keys_after_deck_switch(old, pressed, new),
    ensures
        pressed.contains(old.settings.keybindings.open_settings) ==> new.show_settings == !old.show_settings,
        !pressed.contains(old.settings.keybindings.open_settings) ==> new.show_settings == old.show_settings,
        !pressed.contains(old.settings.keybindings.open_settings) && !pressed.contains(old.settings.keybindings.next_card)
            ==> new == old,
{
}

/// The keys handled before a deck switch: quit ends the frame and changes nothing; otherwise
/// each of the debug, full-screen, deck-menu and help keys flips its panel, and the next-deck
/// key makes the following deck active, wrapping after the last, with no card shown.
pub proof fn lemma_keys_before_switch(old: CardAppState, pressed: Seq<Key>, r: KeyOutcome, new: CardAppState)
    requires
        keys_before_deck_switch(old, pressed, r, new),
    ensures
        pressed.contains(old.settings.keybindings.quit) ==> r == KeyOutcome::Quit && new == old,
        !pressed.contains(old.settings.keybindings.quit) ==> {
            &&& new.show_debug == (old.show_debug != pressed.contains(old.settings.keybindings.toggle_debug))
            &&& new.hide_ui_chrome == (old.hide_ui_chrome != pressed.contains(old.settings.keybindings.toggle_full_screen))
            &&& r == (if pressed.contains(old.settings.keybindings.next_deck) {
                KeyOutcome::DeckSwitched
            } else {
                KeyOutcome::Continue
            })
        },
        !pressed.contains(old.settings.keybindings.quit) && !pressed.contains(old.settings.keybindings.next_deck) ==> {
            &&& new.show_deck_menu == (old.show_deck_menu != pressed.contains(old.settings.keybindings.toggle_deck_menu))
            &&& new.show_help == (old.show_help != pressed.contains(old.settings.keybindings.toggle_help))
            &&& new.current_path == old.current_path
        },
        !pressed.contains(old.settings.keybindings.quit) && pressed.contains(old.settings.keybindings.next_deck) ==> {
            &&& new.settings.active_deck == (old.settings.active_deck + 1) % (old.settings.decks@.len() as int)
            &&& new.current_path is None
            &&& !new.show_deck_menu && !new.show_help && !new.show_settings
        },
{
}

/// The settings file that the viewer writes reads back as the viewer's settings, each deck
/// path `p` coming back as `path_after_reload(base, p)`.
pub proof fn lemma_saved_settings_read_back(s: CardAppState, base: Seq<char>)
    requires
        s.well_formed(),
    ensures
        crate::settings::file_colors_split(settings_to_file(s.settings@, base), base),
        crate::settings::settings_from_file(settings_to_file(s.settings@, base), base)
            == Ok::<crate::settings::SettingsText, Seq<char>>(crate::settings::SettingsText {
            decks: s.settings@.decks.map_values(|d: crate::settings::DeckText| crate::settings::deck_after_reload(base, d)),
            ..s.settings@
        }),
{
    crate::settings::lemma_settings_round_trip(s.settings@, base);
}

} // verus!
