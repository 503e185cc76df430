use vstd::prelude::*;

use crate::error::ParseError;
use crate::text::{is_ws, lemma_trim_padded, lower_char, lower_char_exec, trim, trim_str};

verus! {

/// How rare a card is, from the most common to the rarest.
#[derive(Debug, Clone, Copy, PartialEq, Eq, Structural, PartialOrd, Ord, Hash)]
pub enum Rarity {
    Common,
    Uncommon,
    Rare,
    Mythical,
}

/// The rarity that one letter stands for, in either case.
pub open spec fn rarity_letter(c: char) -> Option<Rarity> {
    let l = lower_char(c);
    if l == 'c' {
        Some(Rarity::Common)
    } else if l == 'u' {
        Some(Rarity::Uncommon)
    } else if l == 'r' {
        Some(Rarity::Rare)
    } else if l == 'm' {
        Some(Rarity::Mythical)
    } else {
        None
    }
}

/// The rarity that a text names: one rarity letter, with whitespace around.
pub open spec fn rarity_of(s: Seq<char>) -> Option<Rarity> {
    let t = trim(s);
    if t.len() == 1 {
        rarity_letter(t[0])
    } else {
        None
    }
}

pub open spec fn rarity_result(s: Seq<char>) -> Result<Rarity, ParseError> {
    match rarity_of(s) {
        Some(r) => Ok(r),
        None => Err(ParseError::UnrecognizedRarity),
    }
}

impl Rarity {
    /// Reads a rarity letter (`C`, `U`, `R` or `M`, in either case), with
    /// whitespace around it allowed.
    pub fn try_from(value: &str) -> (r: Result<Rarity, ParseError>)
        ensures
            r == rarity_result(value@),
    {
        let t = trim_str(value);
        if t.unicode_len() != 1 {
            return Err(ParseError::UnrecognizedRarity);
        }
        let l = lower_char_exec(t.get_char(0));
        if l == 'c' {
            Ok(Rarity::Common)
        } else if l == 'u' {
            Ok(Rarity::Uncommon)
        } else if l == 'r' {
            Ok(Rarity::Rare)
        } else if l == 'm' {
            Ok(Rarity::Mythical)
        } else {
            Err(ParseError::UnrecognizedRarity)
        }
    }
}

/// A rarity letter in either case, with any whitespace before and after it,
/// reads as the rarity it stands for.
pub proof fn lemma_rarity_padded(pre: Seq<char>, c: char, post: Seq<char>)
    requires
        forall|i: int| 0 <= i < pre.len() ==> is_ws(#[trigger] pre[i]),
        forall|i: int| 0 <= i < post.len() ==> is_ws(#[trigger] post[i]),
        rarity_letter(c) is Some,
    ensures
        rarity_result(pre + seq![c] + post) == Ok::<Rarity, ParseError>(rarity_letter(c)->0),
{
    assert(!is_ws(c));
    lemma_trim_padded(pre, seq![c], post);
}

} // verus!
