//! Deck Shuffle Draw: the settings model, the card-deck logic and the image
//! selection rules of a card viewer, with their contracts proved by Verus.

pub mod card_state;
pub mod colors;
pub mod image_loader;
pub mod keys;
pub mod paths;
pub mod settings;
pub mod text;

