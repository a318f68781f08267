# Deck Shuffle Draw

A card viewer: it reads decks of card images from directories named in a TOML settings
file, shows one card at a time at random, and lets the user switch decks, show a help
image, and rebind the keys of its actions.

The crate is a Verus library with its contracts proved, and a thin program around it.

- `src/keys.rs`: the bindable keys, their labels, and reading a key name.
- `src/colors.rs`: reading and writing `#RRGGBB` colors.
- `src/paths.rs`: `/`-separated paths as on Unix: joining, file names, components,
  resolving and relativising.
- `src/settings.rs`: the settings file and the checked settings; reading, checking and
  writing them, with the round-trip laws.
- `src/image_loader.rs`: which directory entries are card images and their order; decoding
  image bytes for display.
- `src/card_state.rs`: the viewer's state and every decision it takes: drawing cards,
  switching decks, the image cache, key presses, the key-binding editor.
- `src/text.rs`: whitespace, ASCII case and character helpers.
- `app/`: the window (eframe/egui), files, TOML, the background loader thread.

Sizes from the settings are `f32` values; the library holds them as their bit patterns and
compares them with zero exactly as IEEE-754 does.
