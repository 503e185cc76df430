use vstd::prelude::*;

use crate::error::ParseError;
use crate::text::{
    lower, lower_is, parse_decimal, parse_unsigned, split, split_str, trim, trim_str, views,
};

verus! {

/// A card's cost in each kind of mana: colorless, white, blue, black, red and
/// green, in that order.
#[derive(Debug, Clone, Copy, PartialEq, Eq, Structural)]
pub struct ManaCost(pub u8, pub u8, pub u8, pub u8, pub u8, pub u8);

/// The colour count that a cost token adds one to: 1 white, 2 blue, 3 black,
/// 4 red, 5 green (case is ignored).
pub open spec fn symbol_slot(tok: Seq<char>) -> Option<int> {
    let t = lower(tok);
    if t == "w"@ || t == "white"@ {
        Some(1)
    } else if t == "blu"@ || t == "blue"@ {
        Some(2)
    } else if t == "bla"@ || t == "black"@ {
        Some(3)
    } else if t == "r"@ || t == "red"@ {
        Some(4)
    } else if t == "g"@ || t == "green"@ {
        Some(5)
    } else {
        None
    }
}

/// How many of `toks` add to colour count `k`.
pub open spec fn count_slot(toks: Seq<Seq<char>>, k: int) -> nat
    decreases toks.len(),
{
    if toks.len() == 0 {
        0
    } else {
        count_slot(toks.drop_last(), k) + if symbol_slot(toks.last()) == Some(k) {
            1nat
        } else {
            0nat
        }
    }
}

/// The cost that a cost text writes: a colorless amount (taken as 0 where the
/// first token is no number from 0 to 255), then one token per coloured mana,
/// all separated by single spaces.
pub open spec fn mana_of(s: Seq<char>) -> Result<ManaCost, ParseError> {
    let t = trim(s);
    let toks = split(t, ' ');
    let colors = toks.drop_first();
    if t.len() == 0 {
        Err(ParseError::MissingColorlessCost)
    } else if exists|i: int| 0 <= i < colors.len() && (#[trigger] symbol_slot(colors[i])) is None {
        Err(ParseError::UnrecognizedManaSymbol)
    } else if exists|k: int| 1 <= k <= 5 && #[trigger] count_slot(colors, k) > 255 {
        Err(ParseError::ManaCountOverflow)
    } else {
        let colorless = match parse_unsigned(toks[0], 255) {
            Some(n) => n as u8,
            None => 0u8,
        };
        Ok(
            ManaCost(
                colorless,
                count_slot(colors, 1) as u8,
                count_slot(colors, 2) as u8,
                count_slot(colors, 3) as u8,
                count_slot(colors, 4) as u8,
                count_slot(colors, 5) as u8,
            ),
        )
    }
}

/// Which colour count a token adds to, as `symbol_slot` says.
fn symbol_slot_exec(tok: &str) -> (r: Option<usize>)
    ensures
        match symbol_slot(tok@) {
            Some(k) => r == Some(k as usize),
            None => r is None,
        },
{
    if lower_is(tok, "w") || lower_is(tok, "white") {
        Some(1)
    } else if lower_is(tok, "blu") || lower_is(tok, "blue") {
        Some(2)
    } else if lower_is(tok, "bla") || lower_is(tok, "black") {
        Some(3)
    } else if lower_is(tok, "r") || lower_is(tok, "red") {
        Some(4)
    } else if lower_is(tok, "g") || lower_is(tok, "green") {
        Some(5)
    } else {
        None
    }
}

impl ManaCost {
    /// The cost of nothing.
    pub fn zero() -> (r: ManaCost)
        ensures
            r == ManaCost(0, 0, 0, 0, 0, 0),
    {
        ManaCost(0, 0, 0, 0, 0, 0)
    }

    pub fn colorless(&self) -> (r: u8)
        ensures
            r == self.0,
    {
        self.0
    }

    pub fn white(&self) -> (r: u8)
        ensures
            r == self.1,
    {
        self.1
    }

    pub fn blue(&self) -> (r: u8)
        ensures
            r == self.2,
    {
        self.2
    }

    pub fn black(&self) -> (r: u8)
        ensures
            r == self.3,
    {
        self.3
    }

    pub fn red(&self) -> (r: u8)
        ensures
            r == self.4,
    {
        self.4
    }

    pub fn green(&self) -> (r: u8)
        ensures
            r == self.5,
    {
        self.5
    }

    /// Reads a cost such as `"7 w bla black"`: the colorless amount, then one
    /// colour token (`w`/`white`, `blu`/`blue`, `bla`/`black`, `r`/`red`,
    /// `g`/`green`, in any case) per coloured mana.
    pub fn try_from(value: &str) -> (r: Result<ManaCost, ParseError>)
        ensures
            r == mana_of(value@),
    {
        let t = trim_str(value);
        if t.unicode_len() == 0 {
            return Err(ParseError::MissingColorlessCost);
        }
        let toks = split_str(t, ' ');
        let ghost all = views(toks@);
        assert(all.len() == toks@.len());
        assert(toks@.len() >= 1) by {
            crate::text::lemma_split_nonempty(t@, ' ');
        }
        let ghost colors = all.drop_first();
        let mut counts: Vec<usize> = vec![0, 0, 0, 0, 0, 0];
        let mut i: usize = 1;
        while i < toks.len()
            invariant
                1 <= i <= toks@.len(),
                all == views(toks@),
                all == split(trim(value@), ' '),
                colors == all.drop_first(),
                t@ == trim(value@),
                t@.len() > 0,
                counts@.len() == 6,
                forall|k: int| 0 <= k < 6 ==> #[trigger] counts@[k] < i,
                forall|k: int| 1 <= k <= 5 ==> #[trigger] counts@[k] == count_slot(colors.subrange(0, i - 1), k),
                forall|j: int| 0 <= j < i - 1 ==> (#[trigger] symbol_slot(colors[j])) is Some,
                counts@[0] == 0,
            decreases toks@.len() - i,
        {
            assert(colors[i - 1] == toks@[i as int]@);
            let ghost pre = colors.subrange(0, i - 1);
            let ghost cur = colors.subrange(0, i as int);
            assert(cur.drop_last() =~= pre);
            match symbol_slot_exec(toks[i]) {
                Some(k) => {
                    let c = counts[k];
                    counts.set(k, c + 1);
                },
                None => {
                    assert(symbol_slot(colors[i - 1]) is None);
                    return Err(ParseError::UnrecognizedManaSymbol);
                },
            }
            i = i + 1;
        }
        assert(colors.subrange(0, i - 1) =~= colors);
        let mut k: usize = 1;
        while k <= 5
            invariant
                1 <= k <= 6,
                counts@.len() == 6,
                forall|m: int| 1 <= m <= 5 ==> #[trigger] counts@[m] == count_slot(colors, m),
                forall|m: int| 1 <= m < k ==> #[trigger] count_slot(colors, m) <= 255,
                forall|j: int| 0 <= j < colors.len() ==> (#[trigger] symbol_slot(colors[j])) is Some,
                all == views(toks@),
                all == split(trim(value@), ' '),
                colors == all.drop_first(),
                t@ == trim(value@),
                t@.len() > 0,
            decreases 6 - k,
        {
            if counts[k] > 255 {
                assert(count_slot(colors, k as int) > 255);
                return Err(ParseError::ManaCountOverflow);
            }
            k = k + 1;
        }
        let colorless: u8 = match parse_decimal(toks[0], 255) {
            Some(n) => n as u8,
            None => 0,
        };
        Ok(
            ManaCost(
                colorless,
                counts[1] as u8,
                counts[2] as u8,
                counts[3] as u8,
                counts[4] as u8,
                counts[5] as u8,
            ),
        )
    }
}

} // verus!
