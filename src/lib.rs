//! Trading-card records: parsing of one-line card descriptions into typed
//! values, identifiers that find a card by name or by serial, and a
//! collection that counts the copies held of each card.

/// Card identifiers: a name, a serial (`{series} {rarity} {number}`), or both.
pub mod ids;

/// Cards read from a record line.
pub mod cards;

/// Collections of owned cards.
pub mod collections;

/// The cards of one set.
pub mod ltr;

mod classification;
mod error;
mod mana;
mod rarity;
mod text;

pub use classification::{
    classify, lemma_same_kind_reflexive, lemma_same_kind_symmetric, same_kind, Classification,
    ClassificationView,
};
pub use error::ParseError;
pub use mana::{count_slot, mana_of, symbol_slot, ManaCost};
pub use rarity::{lemma_rarity_padded, rarity_letter, rarity_of, rarity_result, Rarity};
pub use text::{
    is_ws, lemma_trim_padded, lower, lower_char, parse_unsigned, same_text, split, split_once,
    trim, upper,
};
