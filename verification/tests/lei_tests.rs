use leim::lei::{mod_97, LEI};

#[test]
fn lei_test_mod_97() {
    assert_eq!(mod_97(""), Ok(0));
    assert_eq!(mod_97("1"), Ok(1));
    assert_eq!(mod_97("02"), Ok(2));
    assert_eq!(mod_97("96"), Ok(96));
    assert_eq!(mod_97("97"), Ok(0));
    assert_eq!(mod_97("98"), Ok(1));
    assert_eq!(mod_97("9799"), Ok(2));
    assert_eq!(
        mod_97("-1").unwrap_err().to_string(),
        "ParseLeiError: invalid character"
    );
    assert_eq!(
        mod_97("123#").unwrap_err().to_string(),
        "ParseLeiError: invalid character"
    );
}

#[test]
fn lei_test_happy_parse() {
    let lei = LEI::from_str("2594007XIACKNMUAW223").unwrap();
    assert_eq!(lei.lou(), String::from("2594"));
    assert_eq!(lei.entity(), String::from("7XIACKNMUAW2"));
    LEI::from_str("54930084UKLVMY22DS16").unwrap();
    LEI::from_str("213800WSGIIZCXF1P572").unwrap();
    LEI::from_str("5493000IBP32UQZ0KL24").unwrap();
    LEI::from_str("RILFO74KP1CM8P6PCT96").unwrap();
}

#[test]
fn lei_test_malformed() {
    assert_eq!(
        LEI::from_str("").unwrap_err().to_string(),
        "ParseLeiError: invalid length"
    );
    assert_eq!(
        LEI::from_str("2594007XIACKNUAW223")
            .unwrap_err()
            .to_string(),
        "ParseLeiError: invalid length"
    );
    assert_eq!(
        LEI::from_str("2594007XIACKNUAW22334")
            .unwrap_err()
            .to_string(),
        "ParseLeiError: invalid length"
    );
    assert_eq!(
        LEI::from_str("2594007XIACKNMUAW224")
            .unwrap_err()
            .to_string(),
        "ParseLeiError: invalid checksum"
    );
}

#[test]
fn lei_test_random() {
    LEI::random().unwrap();
}

#[test]
fn lei_test_try_from_matches_from_str() {
    assert_eq!(
        LEI::try_from("2594007XIACKNMUAW223"),
        LEI::from_str("2594007XIACKNMUAW223")
    );
    assert_eq!(
        LEI::try_from("2594007XIACKNMUAW224"),
        LEI::from_str("2594007XIACKNMUAW224")
    );
}

#[test]
fn lei_test_random_round_trip() {
    let lei = LEI::random().unwrap();
    let s = lei.to_string();
    assert_eq!(s.len(), 20);
    let reparsed = LEI::from_str(&s).unwrap();
    assert_eq!(reparsed, lei);
}
