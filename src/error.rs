use vstd::prelude::*;

verus! {

/// Why a card record, or one of its fields, could not be read.
#[derive(Debug, Clone, Copy, PartialEq, Eq, Structural)]
pub enum ParseError {
    /// The rarity is not one of `C`, `U`, `R`, `M`.
    UnrecognizedRarity,
    /// The cost text is empty.
    MissingColorlessCost,
    /// A cost token after the first is not a colour.
    UnrecognizedManaSymbol,
    /// A colour occurs more often than a count can hold.
    ManaCountOverflow,
    /// The type line is not a known kind.
    UnrecognizedClassification,
    /// A creature type line holds more than `creature` before its dash.
    ExpectedCreatureAfterDash,
    /// A creature type line has no dash before its subtype.
    NoCreatureSubtype,
    /// The record has no name field.
    MissingName,
    /// The record has no cost field.
    MissingCost,
    /// The record has no type line field.
    MissingClassification,
    /// The record has no rarity field.
    MissingRarity,
    /// The record has no effect text field.
    MissingEffectText,
    /// The record has a field after the effect text.
    TooManyFields,
}

} // verus!
