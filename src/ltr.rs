//! The cards of the "Lord of the Rings" set, one record line each.
use vstd::prelude::*;

use crate::cards::{parse_card, GenericCard};
use crate::collections::{collection_of, Collection};
use crate::error::ParseError;

verus! {

pub const BANISH_FROM_EDORAS: &'static str = "LTR C 0001;Banish from Edoras;4 w;Sorcery;C;\"This spells costs 2 less to cast if it targets a tapped creature.\\r\\nExile target creature.\"";

pub const THE_BATTLE_OF_BYWATER: &'static str = "LTR R 0002;The Battle of Bywater;1 w w;Sorcery;R;\"Destroy all creatures with power 3 or greater. Then create a Food token for each creature you control.\"";

pub const BILL_THE_PONEY: &'static str = "LTR U 0003;Bill the Poney;3 w;Legendary Creature - Horse;U;\"When Bill the Pony enters the battlefield, create two Food tokens.\\r\\nSacrifice a Food: Until end of turn, target creature you control assigns combat damage equal to its toughness rather than its power.\"";

pub const BOROMIR_WARDEN_OF_THE_TOWER: &'static str = "LTR R 0004;\"Boromir, Warden of the Tower\";2 w;Legendary Creature - Human Soldier;R;\"Vigilence\\r\\nWhenever an opponent casts a spell, if no mana was spent to cast it, counter that spell.\\r\\nSacrifice Boromir, Warden of the Tower: Creatures you control gain indestructible until end of turn. The Ring tempts you.\"";

pub const DAWN_OF_A_NEW_AGE: &'static str = "LTR M 0005;Dawn of a New Age;1 w;Enchantment;M;\"Dawn of a New Age enters the battlefield with a hope counter on it for each of the creature you control.\\r\\nAt the beginning of your end step, remove a hope counter from Dawn of a New Age. If you do, draw a card. Then if Dawn of a New Age has no hope counters on it, sacrifice it and you gain 4 life.\"";

/// The record lines of the set, in order.
pub open spec fn set_lines() -> Seq<Seq<char>> {
    seq![
        BANISH_FROM_EDORAS@,
        THE_BATTLE_OF_BYWATER@,
        BILL_THE_PONEY@,
        BOROMIR_WARDEN_OF_THE_TOWER@,
        DAWN_OF_A_NEW_AGE@,
    ]
}

/// The whole set, each card held zero times.
pub fn collection() -> (r: Result<Collection<'static>, ParseError>)
    ensures
        match collection_of(set_lines()) {
            Ok(entries) => r matches Ok(c) && c@ == entries,
            Err(e) => r matches Err(x) && x == e,
        },
{
    let lines: Vec<&'static str> = vec![
        BANISH_FROM_EDORAS,
        THE_BATTLE_OF_BYWATER,
        BILL_THE_PONEY,
        BOROMIR_WARDEN_OF_THE_TOWER,
        DAWN_OF_A_NEW_AGE,
    ];
    assert(crate::text::views(lines@) =~= set_lines());
    Collection::make(lines)
}

/// One record line of the set.
pub struct LOTRMTGCard(pub &'static str);

impl LOTRMTGCard {
    /// The card that the line describes.
    pub fn try_into(self) -> (r: Result<GenericCard<'static>, ParseError>)
        ensures
            match parse_card(self.0@) {
                Ok(v) => r matches Ok(c) && c@ == v,
                Err(e) => r matches Err(x) && x == e,
            },
    {
        GenericCard::try_from(self.0)
    }
}

} // verus!
