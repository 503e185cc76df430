use mtg_multitool::{ParseError, Rarity};

#[test]
fn rarity_try_from_str() {
    assert_eq!(Rarity::try_from(" c "), Ok(Rarity::Common));
    assert_eq!(Rarity::try_from("U  "), Ok(Rarity::Uncommon));
    assert_eq!(Rarity::try_from("  R"), Ok(Rarity::Rare));
    assert_eq!(Rarity::try_from("m"), Ok(Rarity::Mythical));
}

#[test]
fn rarity_every_letter_in_both_cases_with_padding() {
    let letters = [
        ('c', Rarity::Common),
        ('u', Rarity::Uncommon),
        ('r', Rarity::Rare),
        ('m', Rarity::Mythical),
    ];
    for (letter, rarity) in letters {
        for text in [
            format!("{}", letter),
            format!("{}", letter.to_ascii_uppercase()),
            format!("\t {} \n", letter),
            format!("  {}", letter.to_ascii_uppercase()),
        ] {
            assert_eq!(Rarity::try_from(text.as_str()), Ok(rarity));
        }
    }
}

#[test]
fn rarity_other_texts_fail() {
    for text in ["", "  ", "x", "cc", "common", "c u", "1", "é"] {
        assert_eq!(Rarity::try_from(text), Err(ParseError::UnrecognizedRarity));
    }
}

#[test]
fn rarity_order_follows_rarefaction() {
    assert!(Rarity::Common < Rarity::Uncommon);
    assert!(Rarity::Uncommon < Rarity::Rare);
    assert!(Rarity::Rare < Rarity::Mythical);
}
