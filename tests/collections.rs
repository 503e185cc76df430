use mtg_multitool::cards::GenericCard;
use mtg_multitool::collections::{Collection, QuantityError};
use mtg_multitool::ids::Id::{Name, Serial};
use mtg_multitool::ltr::{self, LOTRMTGCard, BANISH_FROM_EDORAS, DAWN_OF_A_NEW_AGE};
use mtg_multitool::ParseError;

#[test]
fn ltr_collection() {
    let mut lua = ltr::collection().unwrap();

    lua.add(GenericCard::try_from(BANISH_FROM_EDORAS).unwrap(), 1).unwrap();

    println!("{:?}", lua);
    assert_eq!(lua.count(Name("Banish from Edoras")), Some(1));
    assert_eq!(lua.count(Serial("LTR M 5")), Some(0));
}

#[test]
fn collection_add_remove_count() {
    let mut c = Collection::make(vec![BANISH_FROM_EDORAS]).unwrap();
    assert_eq!(c.count(Name("Banish from Edoras")), Some(0));
    assert_eq!(c.add(Name("Banish from Edoras"), 3), Ok(()));
    assert_eq!(c.count(Name("Banish from Edoras")), Some(3));
    assert_eq!(c.remove(Serial("LTR C 0001"), 1), Ok(()));
    assert_eq!(c.count(Name("Banish from Edoras")), Some(2));
    assert_eq!(c.count("LTR C 1"), Some(2));
}

#[test]
fn collection_add_unknown_creates_nothing() {
    let mut c = Collection::make(vec![BANISH_FROM_EDORAS]).unwrap();
    assert_eq!(c.add(Name("Sauron"), 3), Ok(()));
    assert_eq!(c.count(Name("Sauron")), None);
    assert_eq!(c.count(Name("Banish from Edoras")), Some(0));
    assert_eq!(c.remove(Serial("MTG C 0001"), 1), Ok(()));
    assert_eq!(c.count(Serial("MTG C 0001")), None);
}

#[test]
fn collection_quantity_errors() {
    let mut c = Collection::make(vec![BANISH_FROM_EDORAS, DAWN_OF_A_NEW_AGE]).unwrap();
    assert_eq!(c.add("Dawn of a New Age", 2), Ok(()));
    assert_eq!(c.remove("Dawn of a New Age", 3), Err(QuantityError::Underflow));
    assert_eq!(c.count("Dawn of a New Age"), Some(2));
    assert_eq!(c.add("Dawn of a New Age", usize::MAX), Err(QuantityError::Overflow));
    assert_eq!(c.count("Dawn of a New Age"), Some(2));
    assert_eq!(c.add("Dawn of a New Age", usize::MAX - 2), Ok(()));
    assert_eq!(c.count("Dawn of a New Age"), Some(usize::MAX));
    assert_eq!(c.count("Banish from Edoras"), Some(0));
}

#[test]
fn collection_first_matching_entry_only() {
    let mut c = Collection::make(vec![BANISH_FROM_EDORAS, BANISH_FROM_EDORAS]).unwrap();
    assert_eq!(c.add(Name("Banish from Edoras"), 4), Ok(()));
    assert_eq!(c.remove(Name("Banish from Edoras"), 1), Ok(()));
    assert_eq!(c.count(Name("Banish from Edoras")), Some(3));
}

#[test]
fn collection_make_fails_as_a_whole() {
    let r = Collection::make(vec![BANISH_FROM_EDORAS, "LTR C 0009;Broken;1 w;Sorcery;C"]);
    assert_eq!(r.map(|_| ()).unwrap_err(), ParseError::MissingEffectText);
    assert!(Collection::make(Vec::new()).is_ok());
}

#[test]
fn ltr_card_reads_its_line() {
    let card = LOTRMTGCard(DAWN_OF_A_NEW_AGE).try_into().unwrap();
    assert_eq!(*card.name(), "Dawn of a New Age");
}
