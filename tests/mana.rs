use mtg_multitool::{ManaCost, ParseError};

fn counts(m: &ManaCost) -> [u8; 6] {
    [m.colorless(), m.white(), m.blue(), m.black(), m.red(), m.green()]
}

#[test]
fn mana_cost_seven_white_two_black() {
    let mana = ManaCost::try_from("7 w bla black").unwrap();
    assert_eq!(mana.colorless(), 7);
    assert_eq!(mana.white(), 1);
    assert_eq!(mana.black(), 2);
    assert_eq!(mana.blue(), 0);
    assert_eq!(mana.red(), 0);
    assert_eq!(mana.green(), 0);
}

#[test]
fn mana_cost_all_colour_words_any_case() {
    let mana = ManaCost::try_from("  2 W White BLU blue bla Black r RED g green  ").unwrap();
    assert_eq!(counts(&mana), [2, 2, 2, 2, 2, 2]);
}

#[test]
fn mana_cost_zero() {
    assert_eq!(counts(&ManaCost::zero()), [0, 0, 0, 0, 0, 0]);
    assert_eq!(ManaCost::try_from("0"), Ok(ManaCost::zero()));
}

#[test]
fn mana_cost_empty_is_missing_colorless() {
    assert_eq!(ManaCost::try_from(""), Err(ParseError::MissingColorlessCost));
    assert_eq!(ManaCost::try_from("   "), Err(ParseError::MissingColorlessCost));
}

#[test]
fn mana_cost_non_numeric_first_token_counts_as_zero() {
    let mana = ManaCost::try_from("x w").unwrap();
    assert_eq!(counts(&mana), [0, 1, 0, 0, 0, 0]);
    let mana = ManaCost::try_from("256 g").unwrap();
    assert_eq!(counts(&mana), [0, 0, 0, 0, 0, 1]);
    let mana = ManaCost::try_from("+255").unwrap();
    assert_eq!(mana.colorless(), 255);
    let mana = ManaCost::try_from("007").unwrap();
    assert_eq!(mana.colorless(), 7);
}

#[test]
fn mana_cost_unknown_symbol_fails() {
    assert_eq!(ManaCost::try_from("3 w purple"), Err(ParseError::UnrecognizedManaSymbol));
    assert_eq!(ManaCost::try_from("3  w"), Err(ParseError::UnrecognizedManaSymbol));
}

#[test]
fn mana_cost_count_overflow_fails() {
    let mut text = String::from("1");
    for _ in 0..255 {
        text.push_str(" w");
    }
    assert_eq!(ManaCost::try_from(text.as_str()).unwrap().white(), 255);
    text.push_str(" w");
    assert_eq!(ManaCost::try_from(text.as_str()), Err(ParseError::ManaCountOverflow));
}
