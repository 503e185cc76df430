use vstd::prelude::*;

use crate::cards::{card_id, parse_card, CardView, GenericCard};
use crate::error::ParseError;
use crate::ids::{ids_match, same_id, AsId, Id, IdView};
use crate::text::views;

verus! {

/// Why a quantity could not be changed.
#[derive(Debug, Clone, Copy, PartialEq, Eq, Structural)]
pub enum QuantityError {
    /// The new quantity would not fit in a `usize`.
    Overflow,
    /// More copies would be removed than the collection holds.
    Underflow,
}

/// Owned cards, each with the number of copies held, in the order in which
/// they were given.
#[derive(Debug)]
pub struct Collection<'a>(Vec<(GenericCard<'a>, usize)>);

impl<'a> View for Collection<'a> {
    type V = Seq<(CardView, usize)>;

    closed spec fn view(&self) -> Seq<(CardView, usize)> {
        entries_view(self.0@)
    }
}

/// The values of a sequence of entries.
pub open spec fn entries_view<'a>(s: Seq<(GenericCard<'a>, usize)>) -> Seq<(CardView, usize)> {
    s.map_values(|e: (GenericCard<'a>, usize)| (e.0@, e.1))
}

/// The index of the first entry, at `i` or after, whose card `id` refers to.
pub open spec fn first_match_from(entries: Seq<(CardView, usize)>, id: IdView, i: int) -> Option<
    int,
>
    decreases entries.len() - i,
{
    if 0 <= i < entries.len() {
        if same_id(id, card_id(entries[i].0)) {
            Some(i)
        } else {
            first_match_from(entries, id, i + 1)
        }
    } else {
        None
    }
}

/// The index of the first entry whose card `id` refers to.
pub open spec fn first_match(entries: Seq<(CardView, usize)>, id: IdView) -> Option<int> {
    first_match_from(entries, id, 0)
}

/// The entries that a list of record lines gives, each held zero times, or
/// the error of the first line that cannot be read.
pub open spec fn collection_of(lines: Seq<Seq<char>>) -> Result<Seq<(CardView, usize)>, ParseError>
    decreases lines.len(),
{
    if lines.len() == 0 {
        Ok(Seq::empty())
    } else {
        match collection_of(lines.drop_last()) {
            Err(e) => Err(e),
            Ok(entries) => match parse_card(lines.last()) {
                Err(e) => Err(e),
                Ok(c) => Ok(entries.push((c, 0usize))),
            },
        }
    }
}

impl<'gc> Collection<'gc> {
    /// Reads each record line into a card held zero times; fails as a whole
    /// on the first line that cannot be read.
    pub fn make(items: Vec<&'gc str>) -> (r: Result<Collection<'gc>, ParseError>)
        ensures
            match collection_of(views(items@)) {
                Ok(entries) => r matches Ok(c) && c@ == entries,
                Err(e) => r matches Err(x) && x == e,
            },
    {
        let mut entries: Vec<(GenericCard<'gc>, usize)> = Vec::new();
        let mut i: usize = 0;
        let ghost lines = views(items@);
        assert(lines.subrange(0, 0) =~= Seq::<Seq<char>>::empty());
        assert(entries_view(entries@) =~= Seq::<(CardView, usize)>::empty());
        while i < items.len()
            invariant
                i <= items@.len(),
                lines == views(items@),
                collection_of(lines.subrange(0, i as int)) == Ok::<
                    Seq<(CardView, usize)>,
                    ParseError,
                >(entries_view(entries@)),
            decreases items@.len() - i,
        {
            let ghost cur = lines.subrange(0, i + 1);
            assert(cur.drop_last() =~= lines.subrange(0, i as int));
            assert(cur.last() == items@[i as int]@);
            let ghost before = entries@;
            match GenericCard::try_from(items[i]) {
                Ok(c) => {
                    entries.push((c, 0));
                    assert(entries_view(entries@) =~= entries_view(before).push((c@, 0usize)));
                },
                Err(e) => {
                    proof {
                        lemma_collection_of_err(lines, i as int + 1);
                    }
                    return Err(e);
                },
            }
            i = i + 1;
        }
        assert(lines.subrange(0, i as int) =~= lines);
        Ok(Collection(entries))
    }

    /// The index of the first entry that `id` refers to.
    fn find(&self, id: &Id) -> (r: Option<usize>)
        ensures
            match first_match(self@, id@) {
                Some(i) => r matches Some(k) && k == i && i < self@.len(),
                None => r is None,
            },
    {
        let mut i: usize = 0;
        while i < self.0.len()
            invariant
                i <= self.0@.len(),
                self@.len() == self.0@.len(),
                first_match(self@, id@) == first_match_from(self@, id@, i as int),
            decreases self.0@.len() - i,
        {
            let card_id = self.0[i].0.id();
            assert(self@[i as int].0 == self.0@[i as int].0@);
            if ids_match(id, &card_id) {
                return Some(i);
            }
            i = i + 1;
        }
        None
    }

    /// Adds `quantity` copies to the first entry that `id` refers to. Nothing
    /// changes where no entry matches (no entry is created), or where the new
    /// quantity would overflow, which is reported.
    pub fn add<'any, T: AsId<'any>>(&mut self, id: T, quantity: usize) -> (r: Result<
        (),
        QuantityError,
    >)
        ensures
            match first_match(old(self)@, id.id_of()) {
                None => r is Ok && final(self)@ == old(self)@,
                Some(i) => if old(self)@[i].1 + quantity > usize::MAX {
                    r == Err::<(), QuantityError>(QuantityError::Overflow) && final(self)@
                        == old(self)@
                } else {
                    r is Ok && final(self)@ == old(self)@.update(
                        i,
                        (old(self)@[i].0, (old(self)@[i].1 + quantity) as usize),
                    )
                },
            },
    {
        let key = id.as_id();
        match self.find(&key) {
            None => Ok(()),
            Some(i) => {
                let amount = self.0[i].1;
                assert(self@[i as int].1 == amount);
                if amount > usize::MAX - quantity {
                    return Err(QuantityError::Overflow);
                }
                let ghost before = self.0@;
                self.0[i].1 = amount + quantity;
                assert(self@ =~= entries_view(before).update(
                    i as int,
                    (entries_view(before)[i as int].0, (amount + quantity) as usize),
                ));
                Ok(())
            },
        }
    }

    /// Takes `quantity` copies from the first entry that `id` refers to.
    /// Nothing changes where no entry matches, or where the entry holds fewer
    /// than `quantity` copies, which is reported.
    pub fn remove<'any, T: AsId<'any>>(&mut self, id: T, quantity: usize) -> (r: Result<
        (),
        QuantityError,
    >)
        ensures
            match first_match(old(self)@, id.id_of()) {
                None => r is Ok && final(self)@ == old(self)@,
                Some(i) => if old(self)@[i].1 < quantity {
                    r == Err::<(), QuantityError>(QuantityError::Underflow) && final(self)@
                        == old(self)@
                } else {
                    r is Ok && final(self)@ == old(self)@.update(
                        i,
                        (old(self)@[i].0, (old(self)@[i].1 - quantity) as usize),
                    )
                },
            },
    {
        let key = id.as_id();
        match self.find(&key) {
            None => Ok(()),
            Some(i) => {
                let amount = self.0[i].1;
                assert(self@[i as int].1 == amount);
                if amount < quantity {
                    return Err(QuantityError::Underflow);
                }
                let ghost before = self.0@;
                self.0[i].1 = amount - quantity;
                assert(self@ =~= entries_view(before).update(
                    i as int,
                    (entries_view(before)[i as int].0, (amount - quantity) as usize),
                ));
                Ok(())
            },
        }
    }

    /// The number of copies held of the first entry that `id` refers to, or
    /// `None` where no entry matches.
    pub fn count<'any, T: AsId<'any>>(&self, id: T) -> (r: Option<usize>)
        ensures
            match first_match(self@, id.id_of()) {
                Some(i) => r == Some(self@[i].1),
                None => r is None,
            },
    {
        let key = id.as_id();
        match self.find(&key) {
            Some(i) => {
                assert(self@[i as int].1 == self.0@[i as int].1);
                Some(self.0[i].1)
            },
            None => None,
        }
    }
}

/// Changing the quantity of an entry never changes which entry an identifier
/// finds.
pub proof fn lemma_quantity_keeps_match(
    entries: Seq<(CardView, usize)>,
    id: IdView,
    i: int,
    amount: usize,
)
    requires
        0 <= i < entries.len(),
    ensures
        first_match(entries.update(i, (entries[i].0, amount)), id) == first_match(entries, id),
{
    let changed = entries.update(i, (entries[i].0, amount));
    assert forall|k: int| 0 <= k < entries.len() implies (#[trigger] changed[k]).0 == entries[k].0 by {}
    lemma_first_match_from_same_cards(changed, entries, id, 0);
}

proof fn lemma_first_match_from_same_cards(
    a: Seq<(CardView, usize)>,
    b: Seq<(CardView, usize)>,
    id: IdView,
    k: int,
)
    requires
        a.len() == b.len(),
        0 <= k,
        forall|j: int| 0 <= j < a.len() ==> (#[trigger] a[j]).0 == b[j].0,
    ensures
        first_match_from(a, id, k) == first_match_from(b, id, k),
    decreases a.len() - k,
{
    if k < a.len() {
        assert(a[k].0 == b[k].0);
        lemma_first_match_from_same_cards(a, b, id, k + 1);
    }
}

proof fn lemma_collection_of_err(lines: Seq<Seq<char>>, k: int)
    requires
        0 <= k <= lines.len(),
        collection_of(lines.subrange(0, k)) is Err,
    ensures
        collection_of(lines) == collection_of(lines.subrange(0, k)),
    decreases lines.len() - k,
{
    if k < lines.len() {
        let next = lines.subrange(0, k + 1);
        assert(next.drop_last() =~= lines.subrange(0, k));
        lemma_collection_of_err(lines, k + 1);
    } else {
        assert(lines.subrange(0, k) =~= lines);
    }
}

/// A deck of sixty cards, by identifier.
pub struct Deck<'a>([Id<'a>; 60]);

} // verus!
