use std::sync::Arc;

use tf2_sku::{Domain, IntErrorKind, ParseError, SKUString, SKU};
use tf2_enum::{Killstreaker, Quality, Sheen, Wear};

fn sku(defindex: i32, quality: u32) -> SKU {
    SKU::new(defindex, quality)
}

#[test]
fn golden_frying_pan_correct() {
    let mut expected = sku(1071, u32::from(Quality::Strange));
    expected.killstreak_tier = Some(3);
    assert_eq!(SKU::try_from("1071;11;kt-3").unwrap(), expected);
}

#[test]
fn professional_unusual_killstreak_skin() {
    let mut expected = sku(424, u32::from(Quality::DecoratedWeapon));
    expected.particle = Some(703);
    expected.skin = Some(307);
    expected.killstreak_tier = Some(3);
    expected.wear = Some(u32::from(Wear::FieldTested));
    expected.sheen = Some(u32::from(Sheen::TeamShine));
    expected.killstreaker = Some(u32::from(Killstreaker::HypnoBeam));
    assert_eq!(SKU::try_from("424;15;u703;w3;pk307;kt-3;ks-1;ke-2008").unwrap(), expected);
}

#[test]
fn attribute_with_four_byte_utf8_char_is_ignored() {
    assert!(SKU::try_from("1071;1;u-🍌🍌122;🍌🍌").unwrap().particle.is_none());
    assert!(SKU::try_from("1071;1;u🍌122;🍌🍌").unwrap().particle.is_none());
    assert!(SKU::try_from("1071;1;u🍌122🍌;🍌🍌").unwrap().particle.is_none());
}

#[test]
fn parses_from_str() {
    let sku = SKU::from_str("u43;;;pk1;kt-0;gibus🍌");

    assert_eq!(sku.defindex, -1);
    assert_eq!(sku.quality, u32::from(Quality::Rarity2));
    assert_eq!(sku.particle, Some(43));
    assert_eq!(sku.skin, Some(1));
    assert!(sku.killstreak_tier.is_none());
}

#[test]
fn bad_quality_is_err() {
    assert!(SKU::try_from("1071;122").is_err());
}

#[test]
fn empty_quality_is_err() {
    assert!(SKU::try_from("1;5;u;pk1").is_err());
}

#[test]
fn unknown_attribute_is_ok() {
    assert!(SKU::try_from("1;5;superspecial").is_ok());
    assert_eq!(SKU::try_from("1;5;superspecial").unwrap().to_sku_string(), "1;5");
}

#[test]
fn bad_quality_is_err_check_error_key() {
    if let ParseError::InvalidValue { key, number } = SKU::try_from("1071;122").unwrap_err() {
        assert_eq!(key, "quality");
        assert_eq!(number, 122);
    } else {
        panic!("wrong error");
    }
}

#[test]
fn negative_defindex_is_ok() {
    assert!(SKU::try_from("-1;11").is_ok());
}

#[test]
fn paint_kit_correct() {
    assert!(SKU::try_from("16310;15;u703;w2;pk310").is_ok());
}

#[test]
fn to_sku_string_in_arc() {
    let sku = Arc::new(SKU::try_from("16310;15;u703;w2;pk310").unwrap());

    assert_eq!(sku.as_ref().to_sku_string(), "16310;15;u703;w2;pk310");
}

#[test]
fn negative_defindex_value() {
    let sku = SKU::try_from("-1;11").unwrap();
    assert_eq!(sku.defindex, -1);
    assert_eq!(sku.to_sku_string(), "-1;11");
}

#[test]
fn full_attribute_round_trip() {
    let s = "424;15;u703;w3;pk307;kt-3;ks-1;ke-2008";
    let sku = SKU::try_from(s).unwrap();
    assert_eq!(sku.particle, Some(703));
    assert_eq!(sku.wear, Some(3));
    assert_eq!(sku.skin, Some(307));
    assert_eq!(sku.killstreak_tier, Some(3));
    assert_eq!(sku.sheen, Some(1));
    assert_eq!(sku.killstreaker, Some(2008));
    assert_eq!(sku.to_sku_string(), s);
}

#[test]
fn every_segment_in_canonical_order() {
    let mut a = sku(1, 6);
    a.particle = Some(703);
    a.craftable = false;
    a.australium = true;
    a.strange = true;
    a.wear = Some(3);
    a.skin = Some(307);
    a.killstreak_tier = Some(3);
    a.festivized = true;
    a.crate_number = Some(50);
    a.craft_number = Some(1);
    a.target_defindex = Some(2007);
    a.output_defindex = Some(6526);
    a.output_quality = Some(6);
    a.paint = Some(1315860);
    a.sheen = Some(1);
    a.killstreaker = Some(2008);
    let expected = "1;6;u703;uncraftable;australium;strange;w3;pk307;kt-3;festive;c50;n1;td-2007;od-6526;oq-6;p1315860;ks-1;ke-2008";
    assert_eq!(a.to_sku_string(), expected);
    // Decoding the canonical string gives the record back, and formatting
    // that record reproduces the string.
    let decoded = SKU::try_from(expected).unwrap();
    assert_eq!(decoded, a);
    assert_eq!(decoded.to_sku_string(), expected);
}

#[test]
fn field_order_of_assignment_is_irrelevant() {
    let mut a = sku(264, 11);
    a.killstreak_tier = Some(3);
    a.sheen = Some(2);

    let mut b = sku(264, 11);
    b.sheen = Some(2);
    b.killstreak_tier = Some(3);

    assert_eq!(a.to_sku_string(), b.to_sku_string());
    assert_eq!(a.to_sku_string(), "264;11;kt-3;ks-2");
}

#[test]
fn default_sku_is_craftable_normal() {
    let d = SKU::default();
    assert_eq!(d.defindex, 0);
    assert_eq!(d.quality, u32::from(Quality::Normal));
    assert!(d.craftable);
    assert!(!d.australium);
    assert!(d.particle.is_none());
    assert_eq!(d.to_sku_string(), "0;0");
}

#[test]
fn lossy_decode_of_empty_string_gives_sentinels() {
    let sku = SKU::from_str("");
    assert_eq!(sku.defindex, -1);
    assert_eq!(sku.quality, u32::from(Quality::Rarity2));
    assert!(sku.craftable);
    assert!(sku.particle.is_none());
}

#[test]
fn lossy_decode_never_fails_on_garbage() {
    let sku = SKU::from_str(";;;🍌;not-a-sku;u🍌");
    assert_eq!(sku.defindex, -1);
    assert_eq!(sku.quality, u32::from(Quality::Rarity2));
    let sku = SKU::from_str("totally;bogus");
    assert_eq!(sku.defindex, -1);
    assert_eq!(sku.quality, u32::from(Quality::Rarity2));
}

#[test]
fn lossy_matches_strict_on_valid_input() {
    let strict = SKU::try_from("200;11;australium;kt-3").unwrap();
    assert_eq!(SKU::from_str("200;11;australium;kt-3"), strict);
    assert_ne!(SKU::from_str("200;100;australium;kt-3"), strict);
}

#[test]
fn lossy_bad_quality_still_dispatches_token() {
    // The unparseable quality token is run through the dispatcher too.
    let sku = SKU::from_str("12;u43;kt-1");
    assert_eq!(sku.defindex, 12);
    assert_eq!(sku.quality, u32::from(Quality::Rarity2));
    assert_eq!(sku.particle, Some(43));
    assert_eq!(sku.killstreak_tier, Some(1));
}

#[test]
fn too_few_tokens_is_invalid_format() {
    assert!(matches!(SKU::try_from(""), Err(ParseError::InvalidFormat)));
    assert!(matches!(SKU::try_from("5021"), Err(ParseError::InvalidFormat)));
}

#[test]
fn empty_particle_error_names_particle() {
    if let ParseError::ParseInt { key, error } = SKU::try_from("1;5;u;pk1").unwrap_err() {
        assert_eq!(key, "particle");
        assert_eq!(error, IntErrorKind::Empty);
    } else {
        panic!("wrong error");
    }
}

#[test]
fn invalid_digit_in_defindex() {
    if let ParseError::ParseInt { key, error } = SKU::try_from("1a;5").unwrap_err() {
        assert_eq!(key, "defindex");
        assert_eq!(error, IntErrorKind::InvalidDigit);
    } else {
        panic!("wrong error");
    }
    // A leading plus sign is not part of the format.
    assert!(SKU::try_from("+5;6").is_err());
}

#[test]
fn defindex_overflow_is_err() {
    if let ParseError::ParseInt { key, error } = SKU::try_from("99999999999;5").unwrap_err() {
        assert_eq!(key, "defindex");
        assert_eq!(error, IntErrorKind::PosOverflow);
    } else {
        panic!("wrong error");
    }
    if let ParseError::ParseInt { key, error } = SKU::try_from("-99999999999;5").unwrap_err() {
        assert_eq!(key, "defindex");
        assert_eq!(error, IntErrorKind::NegOverflow);
    } else {
        panic!("wrong error");
    }
}

#[test]
fn extreme_defindex_round_trips() {
    let sku = SKU::try_from("-2147483648;6").unwrap();
    assert_eq!(sku.defindex, i32::MIN);
    assert_eq!(sku.to_sku_string(), "-2147483648;6");
    let sku = SKU::try_from("2147483647;6").unwrap();
    assert_eq!(sku.defindex, i32::MAX);
    assert_eq!(sku.to_sku_string(), "2147483647;6");
}

#[test]
fn particle_overflow_is_err() {
    if let ParseError::ParseInt { key, error } = SKU::try_from("1;5;u4294967296").unwrap_err() {
        assert_eq!(key, "particle");
        assert_eq!(error, IntErrorKind::PosOverflow);
    } else {
        panic!("wrong error");
    }
}

#[test]
fn invalid_wear_is_err() {
    if let ParseError::InvalidValue { key, number } = SKU::try_from("1;5;w6").unwrap_err() {
        assert_eq!(key, "wear");
        assert_eq!(number, 6);
    } else {
        panic!("wrong error");
    }
}

#[test]
fn invalid_sheen_is_err() {
    if let ParseError::InvalidValue { key, number } = SKU::try_from("1;5;ks-8").unwrap_err() {
        assert_eq!(key, "sheen");
        assert_eq!(number, 8);
    } else {
        panic!("wrong error");
    }
}

#[test]
fn invalid_killstreak_tier_is_err() {
    if let ParseError::InvalidValue { key, number } = SKU::try_from("1;5;kt-4").unwrap_err() {
        assert_eq!(key, "killstreak tier");
        assert_eq!(number, 4);
    } else {
        panic!("wrong error");
    }
}

#[test]
fn invalid_killstreaker_is_err() {
    if let ParseError::InvalidValue { key, number } = SKU::try_from("1;5;ke-2020").unwrap_err() {
        assert_eq!(key, "killstreaker");
        assert_eq!(number, 2020);
    } else {
        panic!("wrong error");
    }
}

#[test]
fn invalid_paint_is_err_and_valid_paint_round_trips() {
    if let ParseError::InvalidValue { key, number } = SKU::try_from("1;5;p7").unwrap_err() {
        assert_eq!(key, "paint");
        assert_eq!(number, 7);
    } else {
        panic!("wrong error");
    }
    let sku = SKU::try_from("1;5;p1315860").unwrap();
    assert_eq!(sku.paint, Some(1315860));
    assert_eq!(sku.to_sku_string(), "1;5;p1315860");
}

#[test]
fn invalid_output_quality_is_err() {
    if let ParseError::InvalidValue { key, number } = SKU::try_from("1;5;oq-122").unwrap_err() {
        assert_eq!(key, "output quality");
        assert_eq!(number, 122);
    } else {
        panic!("wrong error");
    }
    let sku = SKU::try_from("1;5;oq-6").unwrap();
    assert_eq!(sku.output_quality, Some(6));
}

#[test]
fn crafting_references_decode() {
    let sku = SKU::try_from("20003;6;c50;n12;td-2007;od-6526").unwrap();
    assert_eq!(sku.crate_number, Some(50));
    assert_eq!(sku.craft_number, Some(12));
    assert_eq!(sku.target_defindex, Some(2007));
    assert_eq!(sku.output_defindex, Some(6526));
    assert_eq!(sku.to_sku_string(), "20003;6;c50;n12;td-2007;od-6526");
}

#[test]
fn empty_tokens_are_ignored() {
    let sku = SKU::try_from("1;5;;;").unwrap();
    assert_eq!(sku.to_sku_string(), "1;5");
}

#[test]
fn flag_with_trailing_digits_still_sets_flag() {
    // The digit suffix is split off as the value, which a flag ignores.
    let sku = SKU::try_from("1;5;strange7").unwrap();
    assert!(sku.strange);
    assert_eq!(sku.to_sku_string(), "1;5;strange");
}

#[test]
fn error_messages_name_the_field() {
    let e = SKU::try_from("1071;122").unwrap_err();
    assert_eq!(e.message(), "Unknown quality: 122");
    let e = SKU::try_from("1;5;u;pk1").unwrap_err();
    assert_eq!(e.message(), "Value for particle in SKU is empty.");
    let e = SKU::try_from("5021").unwrap_err();
    assert_eq!(
        e.message(),
        "Invalid SKU format. Must begin with a defindex followed by a quality e.g. \"5021;6\""
    );
}

#[test]
fn parse_u32_reports_the_given_key() {
    assert_eq!(tf2_sku::parse_u32("particle", "703").unwrap(), 703);
    if let ParseError::ParseInt { key, error } = tf2_sku::parse_u32("skin", "x1").unwrap_err() {
        assert_eq!(key, "skin");
        assert_eq!(error, IntErrorKind::InvalidDigit);
    } else {
        panic!("wrong error");
    }
}

#[test]
fn parse_enum_u32_checks_the_domain() {
    assert_eq!(tf2_sku::parse_enum_u32("wear", Domain::Wear, "3").unwrap(), 3);
    if let ParseError::InvalidValue { key, number } =
        tf2_sku::parse_enum_u32("wear", Domain::Wear, "9").unwrap_err()
    {
        assert_eq!(key, "wear");
        assert_eq!(number, 9);
    } else {
        panic!("wrong error");
    }
}

#[test]
fn parse_sku_element_sets_one_field() {
    let mut sku = SKU::new(1, 6);
    tf2_sku::parse_sku_element(&mut sku, "u703").unwrap();
    assert_eq!(sku.particle, Some(703));
    tf2_sku::parse_sku_element(&mut sku, "somethingelse").unwrap();
    assert_eq!(sku, {
        let mut expected = SKU::new(1, 6);
        expected.particle = Some(703);
        expected
    });
    assert!(tf2_sku::parse_sku_element(&mut sku, "w9").is_err());
    // A failed element leaves the record unchanged.
    assert_eq!(sku.particle, Some(703));
    assert!(sku.wear.is_none());
}
