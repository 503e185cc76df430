use vstd::prelude::*;

use crate::error::ParseError;
use crate::text::{
    lower, lower_string, same_text, same_text_exec, split_once, split_once_str, str_eq, trim,
    trim_str,
};

verus! {

broadcast use crate::text::lemma_trim_len, crate::text::lemma_split_once_len;

/// A card's kind, as its type line gives it (`"Sorcery"`, `"Legendary Land"`,
/// `"Creature - Soldier"`).
#[derive(Debug)]
pub enum Classification {
    Sorcery,
    Ritual,
    Enchantment,
    /// Lands (`"Land"`, `"Terrain"` or `"Basic Land"`).
    Terrain,
    Artifact,
    /// A creature with its subtype (`"Creature - [...]"`).
    Creature(String),
    /// `"Token [...]"`
    Token(Box<Classification>),
    /// `"Legendary [...]"`
    Legendary(Box<Classification>),
}

/// The mathematical value of a `Classification`: a subtype is a `Seq<char>`.
pub enum ClassificationView {
    Sorcery,
    Ritual,
    Enchantment,
    Terrain,
    Artifact,
    Creature(Seq<char>),
    Token(Box<ClassificationView>),
    Legendary(Box<ClassificationView>),
}

pub open spec fn classification_view(c: &Classification) -> ClassificationView
    decreases c,
{
    match c {
        Classification::Sorcery => ClassificationView::Sorcery,
        Classification::Ritual => ClassificationView::Ritual,
        Classification::Enchantment => ClassificationView::Enchantment,
        Classification::Terrain => ClassificationView::Terrain,
        Classification::Artifact => ClassificationView::Artifact,
        Classification::Creature(s) => ClassificationView::Creature(s@),
        Classification::Token(inner) => ClassificationView::Token(
            Box::new(classification_view(inner)),
        ),
        Classification::Legendary(inner) => ClassificationView::Legendary(
            Box::new(classification_view(inner)),
        ),
    }
}

impl View for Classification {
    type V = ClassificationView;

    open spec fn view(&self) -> ClassificationView {
        classification_view(self)
    }
}

/// The kind that a type line names. The line is trimmed and folded to lower
/// case; a plain kind is matched whole, `token` and `legendary` wrap the kind
/// that the rest of the line names, and `creature` takes what follows the
/// first dash as its subtype, as it stands.
pub open spec fn classify(s: Seq<char>) -> Result<ClassificationView, ParseError>
    decreases s.len(),
{
    let t = lower(trim(s));
    if t == "sorcery"@ {
        Ok(ClassificationView::Sorcery)
    } else if t == "ritual"@ {
        Ok(ClassificationView::Ritual)
    } else if t == "enchantment"@ {
        Ok(ClassificationView::Enchantment)
    } else if t == "land"@ || t == "terrain"@ || t == "basic land"@ {
        Ok(ClassificationView::Terrain)
    } else if t == "artifact"@ {
        Ok(ClassificationView::Artifact)
    } else {
        match split_once(t, ' ') {
            None => Err(ParseError::UnrecognizedClassification),
            Some((prefix, suffix)) => {
                let p = trim(prefix);
                if p == "token"@ {
                    match classify(suffix) {
                        Ok(k) => Ok(ClassificationView::Token(Box::new(k))),
                        Err(e) => Err(e),
                    }
                } else if p == "legendary"@ {
                    match classify(suffix) {
                        Ok(k) => Ok(ClassificationView::Legendary(Box::new(k))),
                        Err(e) => Err(e),
                    }
                } else if p == "creature"@ {
                    match split_once(t, '-') {
                        None => Err(ParseError::NoCreatureSubtype),
                        Some((label, subtype)) => {
                            if trim(label) == "creature"@ {
                                Ok(ClassificationView::Creature(subtype))
                            } else {
                                Err(ParseError::ExpectedCreatureAfterDash)
                            }
                        },
                    }
                } else {
                    Err(ParseError::UnrecognizedClassification)
                }
            },
        }
    }
}

/// Equality of kinds: a subtype is compared trimmed and without regard to
/// case, a wrapped kind by the same rule, and different kinds never match.
pub open spec fn same_kind(a: ClassificationView, b: ClassificationView) -> bool
    decreases a,
{
    match (a, b) {
        (ClassificationView::Sorcery, ClassificationView::Sorcery) => true,
        (ClassificationView::Ritual, ClassificationView::Ritual) => true,
        (ClassificationView::Enchantment, ClassificationView::Enchantment) => true,
        (ClassificationView::Terrain, ClassificationView::Terrain) => true,
        (ClassificationView::Artifact, ClassificationView::Artifact) => true,
        (ClassificationView::Creature(x), ClassificationView::Creature(y)) => same_text(x, y),
        (ClassificationView::Token(x), ClassificationView::Token(y)) => same_kind(*x, *y),
        (ClassificationView::Legendary(x), ClassificationView::Legendary(y)) => same_kind(*x, *y),
        _ => false,
    }
}

impl Classification {
    /// Reads a type line; see `classify`.
    pub fn try_from(s: &str) -> (r: Result<Classification, ParseError>)
        ensures
            match r {
                Ok(c) => classify(s@) == Ok::<ClassificationView, ParseError>(c@),
                Err(e) => classify(s@) == Err::<ClassificationView, ParseError>(e),
            },
        decreases s@.len(),
    {
        let folded = lower_string(trim_str(s));
        let t = folded.as_str();
        if str_eq(t, "sorcery") {
            return Ok(Classification::Sorcery);
        } else if str_eq(t, "ritual") {
            return Ok(Classification::Ritual);
        } else if str_eq(t, "enchantment") {
            return Ok(Classification::Enchantment);
        } else if str_eq(t, "land") || str_eq(t, "terrain") || str_eq(t, "basic land") {
            return Ok(Classification::Terrain);
        } else if str_eq(t, "artifact") {
            return Ok(Classification::Artifact);
        }
        match split_once_str(t, ' ') {
            None => Err(ParseError::UnrecognizedClassification),
            Some((prefix, suffix)) => {
                let p = trim_str(prefix);
                if str_eq(p, "token") {
                    match Classification::try_from(suffix) {
                        Ok(k) => Ok(Classification::Token(Box::new(k))),
                        Err(e) => Err(e),
                    }
                } else if str_eq(p, "legendary") {
                    match Classification::try_from(suffix) {
                        Ok(k) => Ok(Classification::Legendary(Box::new(k))),
                        Err(e) => Err(e),
                    }
                } else if str_eq(p, "creature") {
                    match split_once_str(t, '-') {
                        None => Err(ParseError::NoCreatureSubtype),
                        Some((label, subtype)) => {
                            if str_eq(trim_str(label), "creature") {
                                Ok(Classification::Creature(String::from_str(subtype)))
                            } else {
                                Err(ParseError::ExpectedCreatureAfterDash)
                            }
                        },
                    }
                } else {
                    Err(ParseError::UnrecognizedClassification)
                }
            },
        }
    }
}

fn kinds_equal(a: &Classification, b: &Classification) -> (r: bool)
    ensures
        r == same_kind(a@, b@),
    decreases a,
{
    match (a, b) {
        (Classification::Sorcery, Classification::Sorcery) => true,
        (Classification::Ritual, Classification::Ritual) => true,
        (Classification::Enchantment, Classification::Enchantment) => true,
        (Classification::Terrain, Classification::Terrain) => true,
        (Classification::Artifact, Classification::Artifact) => true,
        (Classification::Creature(x), Classification::Creature(y)) => same_text_exec(
            x.as_str(),
            y.as_str(),
        ),
        (Classification::Token(x), Classification::Token(y)) => kinds_equal(x, y),
        (Classification::Legendary(x), Classification::Legendary(y)) => kinds_equal(x, y),
        _ => false,
    }
}

fn copy_kind(a: &Classification) -> (r: Classification)
    ensures
        r@ == a@,
    decreases a,
{
    match a {
        Classification::Sorcery => Classification::Sorcery,
        Classification::Ritual => Classification::Ritual,
        Classification::Enchantment => Classification::Enchantment,
        Classification::Terrain => Classification::Terrain,
        Classification::Artifact => Classification::Artifact,
        Classification::Creature(s) => Classification::Creature(s.clone()),
        Classification::Token(x) => Classification::Token(Box::new(copy_kind(x))),
        Classification::Legendary(x) => Classification::Legendary(Box::new(copy_kind(x))),
    }
}

impl Clone for Classification {
    fn clone(&self) -> (r: Classification)
        ensures
            r@ == self@,
    {
        copy_kind(self)
    }
}

impl PartialEq for Classification {
    fn eq(&self, other: &Classification) -> (r: bool) {
        kinds_equal(self, other)
    }
}

impl vstd::std_specs::cmp::PartialEqSpecImpl for Classification {
    open spec fn obeys_eq_spec() -> bool {
        true
    }

    open spec fn eq_spec(&self, other: &Classification) -> bool {
        same_kind(self@, other@)
    }
}

/// Every kind equals itself.
pub proof fn lemma_same_kind_reflexive(a: ClassificationView)
    ensures
        same_kind(a, a),
    decreases a,
{
    match a {
        ClassificationView::Token(x) => lemma_same_kind_reflexive(*x),
        ClassificationView::Legendary(x) => lemma_same_kind_reflexive(*x),
        _ => {},
    }
}

/// Equality of kinds does not depend on the order of its operands.
pub proof fn lemma_same_kind_symmetric(a: ClassificationView, b: ClassificationView)
    ensures
        same_kind(a, b) == same_kind(b, a),
    decreases a,
{
    match (a, b) {
        (ClassificationView::Token(x), ClassificationView::Token(y)) => lemma_same_kind_symmetric(
            *x,
            *y,
        ),
        (ClassificationView::Legendary(x), ClassificationView::Legendary(y)) => {
            lemma_same_kind_symmetric(*x, *y)
        },
        _ => {},
    }
}

} // verus!
