use vstd::prelude::*;

use crate::rarity::{rarity_of, Rarity};
use crate::text::{
    parse_decimal, parse_unsigned, same_text, same_text_exec, split, split_str, str_eq, trim,
    trim_str, upper, upper_string, views,
};

verus! {

/// How a card is referred to: by its name, by its serial
/// (`"{series} {rarity} {number}"`), or by both.
#[derive(Debug, Clone, Copy)]
pub enum Id<'a> {
    /// Example: `Name("Banish from Edoras")`
    Name(&'a str),
    /// Example: `Serial("LTR C 0001")`
    Serial(&'a str),
    /// Example: `Both("Banish from Edoras", "LTR C 0001")`
    Both(&'a str, &'a str),
}

/// The mathematical value of an `Id`: its texts as `Seq<char>`.
pub enum IdView {
    Name(Seq<char>),
    Serial(Seq<char>),
    Both(Seq<char>, Seq<char>),
}

impl<'a> View for Id<'a> {
    type V = IdView;

    open spec fn view(&self) -> IdView {
        match *self {
            Id::Name(n) => IdView::Name(n@),
            Id::Serial(s) => IdView::Serial(s@),
            Id::Both(n, s) => IdView::Both(n@, s@),
        }
    }
}

/// What a serial stands for: its series in upper case, its rarity and its
/// number within the series.
pub open spec fn decode_serial(s: Seq<char>) -> Option<(Seq<char>, Rarity, nat)> {
    let parts = split(trim(s), ' ');
    if parts.len() == 3 && rarity_of(parts[1]) is Some && parse_unsigned(
        parts[2],
        usize::MAX as nat,
    ) is Some {
        Some((upper(parts[0]), rarity_of(parts[1])->0, parse_unsigned(parts[2], usize::MAX as nat)->0))
    } else {
        None
    }
}

/// The name an identifier carries. A serial that does not decode counts as a
/// name.
pub open spec fn name_part(id: IdView) -> Option<Seq<char>> {
    match id {
        IdView::Name(n) => Some(n),
        IdView::Both(n, _) => Some(n),
        IdView::Serial(s) => if decode_serial(s) is None {
            Some(s)
        } else {
            None
        },
    }
}

/// The decoded serial an identifier carries.
pub open spec fn serial_part(id: IdView) -> Option<(Seq<char>, Rarity, nat)> {
    match id {
        IdView::Name(_) => None,
        IdView::Serial(s) => decode_serial(s),
        IdView::Both(_, s) => decode_serial(s),
    }
}

/// Two identifiers refer to the same card when both carry a name and the
/// names are the same text up to case and surrounding whitespace, or when both
/// carry a serial and the serials decode to the same series, rarity and
/// number. The relation is reflexive and symmetric, not transitive.
pub open spec fn same_id(a: IdView, b: IdView) -> bool {
    (name_part(a) is Some && name_part(b) is Some && same_text(name_part(a)->0, name_part(b)->0))
        || (serial_part(a) is Some && serial_part(a) == serial_part(b))
}

/// The identifier that a text is read as: a serial where it decodes as one,
/// else a name.
pub open spec fn id_of_text(s: Seq<char>) -> IdView {
    if decode_serial(s) is Some {
        IdView::Serial(s)
    } else {
        IdView::Name(s)
    }
}

/// Decodes a serial: `Some((series, rarity, number))` where `s` is three
/// words separated by single spaces (whitespace around them allowed), the
/// second a rarity letter and the third an unsigned number; `None` otherwise.
pub fn is_serial(s: &str) -> (r: Option<(String, Rarity, usize)>)
    ensures
        match decode_serial(s@) {
            Some((series, rarity, number)) => r matches Some((a, b, c)) && a@ == series && b
                == rarity && c as nat == number,
            None => r is None,
        },
{
    let t = trim_str(s);
    let parts = split_str(t, ' ');
    proof {
        assert(parts@.len() == views(parts@).len());
    }
    if parts.len() != 3 {
        return None;
    }
    assert(parts@[1]@ == views(parts@)[1]);
    assert(parts@[2]@ == views(parts@)[2]);
    let rarity = match Rarity::try_from(parts[1]) {
        Ok(r) => r,
        Err(_) => {
            return None;
        },
    };
    let number = match parse_decimal(parts[2], usize::MAX) {
        Some(n) => n,
        None => {
            return None;
        },
    };
    assert(parts@[0]@ == views(parts@)[0]);
    Some((upper_string(parts[0]), rarity, number))
}

fn name_of<'a>(id: &Id<'a>) -> (r: Option<&'a str>)
    ensures
        match name_part(id@) {
            Some(n) => r matches Some(x) && x@ == n,
            None => r is None,
        },
{
    match id {
        Id::Name(n) => Some(*n),
        Id::Both(n, _) => Some(*n),
        Id::Serial(s) => if is_serial(s).is_none() {
            Some(*s)
        } else {
            None
        },
    }
}

fn serial_of(id: &Id) -> (r: Option<(String, Rarity, usize)>)
    ensures
        match serial_part(id@) {
            Some((series, rarity, number)) => r matches Some((a, b, c)) && a@ == series && b
                == rarity && c as nat == number,
            None => r is None,
        },
{
    match id {
        Id::Name(_) => None,
        Id::Serial(s) => is_serial(s),
        Id::Both(_, s) => is_serial(s),
    }
}

/// Whether two identifiers refer to the same card; see `same_id`.
pub fn ids_match(a: &Id, b: &Id) -> (r: bool)
    ensures
        r == same_id(a@, b@),
{
    match (name_of(a), name_of(b)) {
        (Some(x), Some(y)) => {
            if same_text_exec(x, y) {
                return true;
            }
        },
        _ => {},
    }
    match (serial_of(a), serial_of(b)) {
        (Some((sa, ra, na)), Some((sb, rb, nb))) => {
            let r = str_eq(sa.as_str(), sb.as_str()) && ra == rb && na == nb;
            proof {
                if r {
                    assert(serial_part(a@)->0 == serial_part(b@)->0);
                }
            }
            r
        },
        _ => false,
    }
}

impl<'a> PartialEq for Id<'a> {
    fn eq(&self, other: &Id<'a>) -> (r: bool) {
        ids_match(self, other)
    }
}

impl<'a> vstd::std_specs::cmp::PartialEqSpecImpl for Id<'a> {
    open spec fn obeys_eq_spec() -> bool {
        true
    }

    open spec fn eq_spec(&self, other: &Id<'a>) -> bool {
        same_id(self@, other@)
    }
}

impl<'a> From<&'a str> for Id<'a> {
    /// A serial where the text decodes as one, else a name.
    fn from(value: &'a str) -> (r: Id<'a>) {
        if is_serial(value).is_some() {
            Id::Serial(value)
        } else {
            Id::Name(value)
        }
    }
}

impl<'a> vstd::std_specs::convert::FromSpecImpl<&'a str> for Id<'a> {
    open spec fn obeys_from_spec() -> bool {
        true
    }

    open spec fn from_spec(v: &'a str) -> Id<'a> {
        if decode_serial(v@) is Some {
            Id::Serial(v)
        } else {
            Id::Name(v)
        }
    }
}

/// Conversion of a value into the identifier it is looked up by, without
/// consuming it.
pub trait AsId<'a> {
    spec fn id_of(&self) -> IdView;

    fn as_id(&self) -> (r: Id<'a>)
        ensures
            r@ == self.id_of(),
    ;
}

impl<'a> AsId<'a> for Id<'a> {
    open spec fn id_of(&self) -> IdView {
        self@
    }

    fn as_id(&self) -> (r: Id<'a>) {
        *self
    }
}

impl<'a> AsId<'a> for &'a str {
    open spec fn id_of(&self) -> IdView {
        id_of_text(self@)
    }

    fn as_id(&self) -> (r: Id<'a>) {
        Id::from(*self)
    }
}

/// Every identifier refers to the same card as itself.
pub proof fn lemma_same_id_reflexive(a: IdView)
    ensures
        same_id(a, a),
{
}

/// Whether two identifiers match does not depend on their order.
pub proof fn lemma_same_id_symmetric(a: IdView, b: IdView)
    ensures
        same_id(a, b) == same_id(b, a),
{
}

} // verus!
