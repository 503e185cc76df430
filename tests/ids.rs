use mtg_multitool::cards::GenericCard;
use mtg_multitool::ids::Id::{Both, Name, Serial};
use mtg_multitool::ids::{is_serial, AsId, Id};
use mtg_multitool::Rarity::{Common, Mythical};

#[test]
fn id_partialeq() {
    assert_eq!(Name("Banish from Edoras"), Both("BaNISH FROm EdORas", "LTR C 0001"));
}

#[test]
fn id_serials_compare_decoded() {
    assert_eq!(Serial("LTR C 0001"), Serial("LTR C 1"));
    assert_eq!(Serial("LTR C 1"), Serial("ltr c 01"));
    assert_eq!(Serial("LTR C 0001"), Serial("ltr c 01"));
    assert_ne!(Serial("LTR C 0001"), Serial("LTR U 0001"));
    assert_ne!(Serial("LTR C 0001"), Serial("MTG C 0001"));
    assert_eq!(Serial("LTR C 0001"), Both("Banish from Edoras", "LTR C 1"));
}

#[test]
fn id_names_ignore_case_and_whitespace() {
    assert_eq!(Name("  Banish from Edoras "), Name("banish FROM edoras"));
    assert_ne!(Name("Banish from Edoras"), Name("Banish Edoras"));
    assert_ne!(Name("Banish from Edoras"), Serial("LTR C 0001"));
}

#[test]
fn id_equality_is_not_transitive() {
    let a = Name("Banish from Edoras");
    let b = Both("Banish from Edoras", "LTR C 0001");
    let c = Serial("LTR C 0001");
    assert_eq!(a, b);
    assert_eq!(b, c);
    assert_ne!(a, c);
}

#[test]
fn id_undecodable_serial_counts_as_name() {
    assert_eq!(Serial("Banish from Edoras"), Serial("Banish from Edoras"));
    assert_eq!(Serial("Banish from Edoras"), Name("banish from edoras"));
}

#[test]
fn is_serial_tests() {
    assert_eq!(is_serial("LTR"), None);
    assert_eq!(is_serial("LTR C"), None);
    assert_eq!(is_serial("LTR C 0001"), Some(("LTR".to_string(), Common, 1)));
    assert_eq!(is_serial("LTR C 1"), Some(("LTR".to_string(), Common, 1)));
    assert_eq!(is_serial("LTR c 0001"), Some(("LTR".to_string(), Common, 1)));
    assert_eq!(is_serial("C 001"), None);
    assert_eq!(is_serial("LTR 1"), None);
    assert_eq!(is_serial("ltr c 1"), Some(("LTR".to_string(), Common, 1)));
    assert_eq!(is_serial("c LTR 1"), None);
    assert_eq!(is_serial("1 c LTR"), None);
    assert_eq!(is_serial("Banish from Edoras"), None);
    assert_eq!(is_serial("LTR f 01"), None);
}

#[test]
fn is_serial_more_cases() {
    assert_eq!(is_serial(" mtg M +42 "), Some(("MTG".to_string(), Mythical, 42)));
    assert_eq!(is_serial("LTR C 1 extra"), None);
    assert_eq!(is_serial("LTR C -1"), None);
    assert_eq!(is_serial("LTR C 99999999999999999999999"), None);
}

#[test]
fn id_from_str() {
    assert!(matches!(Id::from("LTR C 0001"), Serial("LTR C 0001")));
    assert!(matches!(Id::from("ltr c 1"), Serial("ltr c 1")));
    assert!(matches!(Id::from("Banish from Edoras"), Name("Banish from Edoras")));
    assert!(matches!("LTR C 0001".as_id(), Serial("LTR C 0001")));
    assert!(matches!("LTR f 01".as_id(), Name("LTR f 01")));
}

#[test]
fn id_from_generic_card() {
    let line = "LTR C 0001;Banish from Edoras;4 w;Sorcery;C;Exile target creature.";
    let card = GenericCard::try_from(line).unwrap();
    assert!(matches!(card.id(), Both("Banish from Edoras", "LTR C 0001")));
    assert!(matches!(card.as_id(), Both("Banish from Edoras", "LTR C 0001")));
    assert_eq!(card.id(), Name("banish from edoras"));
    assert_eq!(card.id(), Serial("LTR C 1"));

    let unnamed = GenericCard::try_from(" ;Banish from Edoras;4 w;Sorcery;C;Exile.").unwrap();
    assert!(matches!(unnamed.id(), Name("Banish from Edoras")));
}
