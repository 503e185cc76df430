use vstd::prelude::*;

use crate::classification::{
    classify, lemma_same_kind_reflexive, same_kind, Classification, ClassificationView,
};
use crate::error::ParseError;
use crate::ids::{AsId, Id, IdView};
use crate::mana::{mana_of, ManaCost};
use crate::rarity::{rarity_result, Rarity};
use crate::text::{split, split_str, str_eq, trim, trim_str, views};

verus! {

/// One card, read from a record line. Its texts are slices of that line.
#[derive(Debug, Clone)]
pub struct GenericCard<'a> {
    id: Option<&'a str>,
    name: &'a str,
    cost: ManaCost,
    kind: Classification,
    rarity: Rarity,
    effects: &'a str,
}

/// The mathematical value of a `GenericCard`.
pub struct CardView {
    pub id: Option<Seq<char>>,
    pub name: Seq<char>,
    pub cost: ManaCost,
    pub kind: ClassificationView,
    pub rarity: Rarity,
    pub effects: Seq<char>,
}

impl<'a> View for GenericCard<'a> {
    type V = CardView;

    closed spec fn view(&self) -> CardView {
        CardView {
            id: match self.id {
                Some(s) => Some(s@),
                None => None,
            },
            name: self.name@,
            cost: self.cost,
            kind: self.kind@,
            rarity: self.rarity,
            effects: self.effects@,
        }
    }
}

/// The fields of a record line: the pieces between semicolons, each trimmed.
pub open spec fn fields(line: Seq<char>) -> Seq<Seq<char>> {
    split(line, ';').map_values(|f: Seq<char>| trim(f))
}

/// The card that a record line describes. Its fields are, in order: serial
/// (may be empty), name, cost, type line, rarity and effect text. Errors come
/// in this order: a missing name, a missing or unreadable cost, a missing type
/// line, a missing or unreadable rarity, an unreadable type line, a missing
/// effect text, a field too many.
pub open spec fn parse_card(line: Seq<char>) -> Result<CardView, ParseError> {
    let f = fields(line);
    if f.len() < 2 {
        Err(ParseError::MissingName)
    } else if f.len() < 3 {
        Err(ParseError::MissingCost)
    } else {
        match mana_of(f[2]) {
            Err(e) => Err(e),
            Ok(cost) => if f.len() < 4 {
                Err(ParseError::MissingClassification)
            } else if f.len() < 5 {
                Err(ParseError::MissingRarity)
            } else {
                match rarity_result(f[4]) {
                    Err(e) => Err(e),
                    Ok(rarity) => match classify(f[3]) {
                        Err(e) => Err(e),
                        Ok(kind) => if f.len() < 6 {
                            Err(ParseError::MissingEffectText)
                        } else if f.len() > 6 {
                            Err(ParseError::TooManyFields)
                        } else {
                            Ok(
                                CardView {
                                    id: if f[0].len() == 0 {
                                        None
                                    } else {
                                        Some(f[0])
                                    },
                                    name: f[1],
                                    cost,
                                    kind,
                                    rarity,
                                    effects: f[5],
                                },
                            )
                        },
                    },
                }
            },
        }
    }
}

/// The identifier a card is looked up by: its name and serial where it has a
/// serial, else its name.
pub open spec fn card_id(c: CardView) -> IdView {
    match c.id {
        Some(s) => IdView::Both(c.name, s),
        None => IdView::Name(c.name),
    }
}

impl<'s> GenericCard<'s> {
    pub fn id(&self) -> (r: Id<'s>)
        ensures
            r@ == card_id(self@),
    {
        match self.id {
            Some(s) => Id::Both(self.name, s),
            None => Id::Name(self.name),
        }
    }

    pub fn name(&self) -> (r: &&'s str)
        ensures
            r@ == self@.name,
    {
        &self.name
    }

    pub fn cost(&self) -> (r: &ManaCost)
        ensures
            *r == self@.cost,
    {
        &self.cost
    }

    pub fn kind(&self) -> (r: &Classification)
        ensures
            r@ == self@.kind,
    {
        &self.kind
    }

    pub fn rarity(&self) -> (r: &Rarity)
        ensures
            *r == self@.rarity,
    {
        &self.rarity
    }

    pub fn effects(&self) -> (r: &&'s str)
        ensures
            r@ == self@.effects,
    {
        &self.effects
    }

    /// Reads one record line; see `parse_card`.
    pub fn try_from(line: &'s str) -> (r: Result<GenericCard<'s>, ParseError>)
        ensures
            match parse_card(line@) {
                Ok(v) => r matches Ok(c) && c@ == v,
                Err(e) => r matches Err(x) && x == e,
            },
    {
        let pieces = split_str(line, ';');
        let ghost f = fields(line@);
        assert(f.len() == pieces@.len());
        assert forall|i: int| 0 <= i < pieces@.len() implies f[i] == trim(
            #[trigger] pieces@[i]@,
        ) by {
            assert(views(pieces@)[i] == pieces@[i]@);
        }
        let n = pieces.len();
        if n < 2 {
            return Err(ParseError::MissingName);
        }
        if n < 3 {
            return Err(ParseError::MissingCost);
        }
        let cost = match ManaCost::try_from(trim_str(pieces[2])) {
            Ok(c) => c,
            Err(e) => {
                return Err(e);
            },
        };
        if n < 4 {
            return Err(ParseError::MissingClassification);
        }
        if n < 5 {
            return Err(ParseError::MissingRarity);
        }
        let rarity = match Rarity::try_from(trim_str(pieces[4])) {
            Ok(r) => r,
            Err(e) => {
                return Err(e);
            },
        };
        let kind = match Classification::try_from(trim_str(pieces[3])) {
            Ok(k) => k,
            Err(e) => {
                return Err(e);
            },
        };
        if n < 6 {
            return Err(ParseError::MissingEffectText);
        }
        if n > 6 {
            return Err(ParseError::TooManyFields);
        }
        let id_str = trim_str(pieces[0]);
        let id = if id_str.unicode_len() == 0 {
            None
        } else {
            Some(id_str)
        };
        Ok(
            GenericCard {
                id,
                name: trim_str(pieces[1]),
                cost,
                kind,
                rarity,
                effects: trim_str(pieces[5]),
            },
        )
    }
}

/// Cards are equal field by field: the texts as they stand, the kind by the
/// equality of kinds.
pub open spec fn same_card(a: CardView, b: CardView) -> bool {
    a.id == b.id && a.name == b.name && a.cost == b.cost && same_kind(a.kind, b.kind) && a.rarity
        == b.rarity && a.effects == b.effects
}

impl<'a> PartialEq for GenericCard<'a> {
    fn eq(&self, other: &GenericCard<'a>) -> (r: bool) {
        let same_serial = match (self.id, other.id) {
            (Some(x), Some(y)) => str_eq(x, y),
            (None, None) => true,
            _ => false,
        };
        same_serial && str_eq(self.name, other.name) && self.cost == other.cost && self.kind
            == other.kind && self.rarity == other.rarity && str_eq(self.effects, other.effects)
    }
}

impl<'a> vstd::std_specs::cmp::PartialEqSpecImpl for GenericCard<'a> {
    open spec fn obeys_eq_spec() -> bool {
        true
    }

    open spec fn eq_spec(&self, other: &GenericCard<'a>) -> bool {
        same_card(self@, other@)
    }
}

/// Reading the same line twice gives equal cards.
pub proof fn lemma_parse_card_twice(line: Seq<char>, a: CardView, b: CardView)
    requires
        parse_card(line) == Ok::<CardView, ParseError>(a),
        parse_card(line) == Ok::<CardView, ParseError>(b),
    ensures
        same_card(a, b),
{
    lemma_same_kind_reflexive(a.kind);
}

impl<'a> AsId<'a> for GenericCard<'a> {
    open spec fn id_of(&self) -> IdView {
        card_id(self@)
    }

    fn as_id(&self) -> (r: Id<'a>) {
        self.id()
    }
}

} // verus!
