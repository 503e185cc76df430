use mtg_multitool::Classification;
use mtg_multitool::Classification::{
    Artifact, Creature, Enchantment, Legendary, Ritual, Sorcery, Terrain, Token,
};
use mtg_multitool::ParseError;

#[test]
fn classification_try_from_str_base() {
    assert_eq!(Classification::try_from("Sorcery"), Ok(Sorcery));
    assert_eq!(Classification::try_from("Ritual"), Ok(Ritual));
    assert_eq!(Classification::try_from("Enchantment"), Ok(Enchantment));
    assert_eq!(
        Classification::try_from("Legendary land"),
        Ok(Legendary(Box::new(Terrain)))
    );
    assert_eq!(
        Classification::try_from("Creature - Soldier"),
        Ok(Creature("Soldier".to_string()))
    );
}

#[test]
fn classification_try_from_str_case() {
    assert_eq!(
        Classification::try_from("sorCerY"),
        Classification::try_from("Sorcery")
    );
    assert_eq!(
        Classification::try_from("Creature - Soldier"),
        Ok(Classification::Creature("  soldier ".to_string()))
    );
}

#[test]
fn classification_try_from_str_whitespaces() {
    assert_eq!(Classification::try_from(" Sorcery  "), Ok(Sorcery));
    assert_eq!(Classification::try_from(" Sorcery  "), Ok(Sorcery));
    assert_eq!(Classification::try_from("Sorcery"), Ok(Sorcery));
    assert_eq!(Classification::try_from(" Sorcery"), Ok(Sorcery));
    assert_eq!(Classification::try_from("Sorcery "), Ok(Sorcery));

    assert_eq!(
        Classification::try_from("Creature - Soldier"),
        Ok(Creature("  soldier ".to_string()))
    );
    assert_eq!(
        Classification::try_from("Creature  -   Soldier"),
        Ok(Creature("  soldier ".to_string()))
    );
}

#[test]
fn classification_partialeq() {
    assert_eq!(Sorcery, Sorcery);
    assert_eq!(Ritual, Ritual);
    assert_eq!(Enchantment, Enchantment);
    assert_eq!(Terrain, Terrain);
    assert_eq!(Legendary(Box::new(Terrain)), Legendary(Box::new(Terrain)));
    assert_eq!(Artifact, Artifact);

    assert_eq!(Creature("Soldier".to_string()), Creature("Soldier".to_string()));
    assert_eq!(Creature("  soldieR ".to_string()), Creature("Soldier".to_string()));
    assert_eq!(
        Legendary(Box::new(Creature("Sauron".to_string()))),
        Legendary(Box::new(Creature("Sauron".to_string())))
    );
    assert_eq!(
        Legendary(Box::new(Creature("SaURon ".to_string()))),
        Legendary(Box::new(Creature(" SaurON".to_string())))
    );
    assert_ne!(
        Legendary(Box::new(Creature("Sauron".to_string()))),
        Legendary(Box::new(Creature("Sauron, the Necromancer".to_string())))
    );

    assert_eq!(
        Token(Box::new(Creature("Soldier".to_string()))),
        Token(Box::new(Creature("Soldier".to_string())))
    );
    assert_ne!(
        Token(Box::new(Creature("Orc".to_string()))),
        Token(Box::new(Creature("Soldier".to_string())))
    );
}

#[test]
fn classification_different_kinds_differ() {
    assert_ne!(Sorcery, Ritual);
    assert_ne!(Token(Box::new(Terrain)), Legendary(Box::new(Terrain)));
    assert_ne!(Terrain, Legendary(Box::new(Terrain)));
    assert_ne!(Creature("Orc".to_string()), Artifact);
}

#[test]
fn classification_land_synonyms() {
    assert_eq!(Classification::try_from("Land"), Ok(Terrain));
    assert_eq!(Classification::try_from("terrain"), Ok(Terrain));
    assert_eq!(Classification::try_from("Basic Land"), Ok(Terrain));
    assert_eq!(Classification::try_from("ARTIFACT"), Ok(Artifact));
}

#[test]
fn classification_nested_wrappers() {
    assert_eq!(
        Classification::try_from("Token Legendary Creature - Orc"),
        Ok(Token(Box::new(Legendary(Box::new(Creature("Orc".to_string()))))))
    );
    assert_eq!(
        Classification::try_from("Legendary Creature - Human Soldier"),
        Ok(Legendary(Box::new(Creature("human soldier".to_string()))))
    );
}

#[test]
fn classification_subtype_is_kept_as_it_stands() {
    match Classification::try_from("Creature - Soldier") {
        Ok(Creature(subtype)) => assert_eq!(subtype, " soldier"),
        other => panic!("unexpected {:?}", other),
    }
}

#[test]
fn classification_errors() {
    assert_eq!(
        Classification::try_from("Planeswalker"),
        Err(ParseError::UnrecognizedClassification)
    );
    assert_eq!(
        Classification::try_from("Instant spell"),
        Err(ParseError::UnrecognizedClassification)
    );
    assert_eq!(
        Classification::try_from("Token Planeswalker"),
        Err(ParseError::UnrecognizedClassification)
    );
    assert_eq!(
        Classification::try_from("Creature Soldier"),
        Err(ParseError::NoCreatureSubtype)
    );
    assert_eq!(
        Classification::try_from("Creature Human - Soldier"),
        Err(ParseError::ExpectedCreatureAfterDash)
    );
    assert_eq!(
        Classification::try_from("Legendary Creature Orc"),
        Err(ParseError::NoCreatureSubtype)
    );
    assert_eq!(Classification::try_from(""), Err(ParseError::UnrecognizedClassification));
}
