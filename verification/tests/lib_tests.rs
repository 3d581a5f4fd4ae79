use leim::{mod_97, validate_checksum, Error, LEI};

#[test]
fn lib_test_mod_97() {
    assert_eq!(mod_97("").unwrap(), 0);
    assert_eq!(mod_97("1").unwrap(), 1);
    assert_eq!(mod_97("02").unwrap(), 2);
    assert_eq!(mod_97("96").unwrap(), 96);
    assert_eq!(mod_97("97").unwrap(), 0);
    assert_eq!(mod_97("98").unwrap(), 1);
    assert_eq!(mod_97("9799").unwrap(), 2);
    assert_eq!(
        mod_97("-1").unwrap_err(),
        Error::InvalidChar { pos: 0, char: '-' }
    );
    assert_eq!(
        mod_97("123#").unwrap_err(),
        Error::InvalidChar { pos: 3, char: '#' }
    );
}

#[test]
fn lib_test_happy_parse() {
    LEI::try_from("2594007XIACKNMUAW223").unwrap();
    LEI::try_from("54930084UKLVMY22DS16").unwrap();
    LEI::try_from("213800WSGIIZCXF1P572").unwrap();
    LEI::try_from("5493000IBP32UQZ0KL24").unwrap();
    LEI::try_from("RILFO74KP1CM8P6PCT96").unwrap();
}

#[test]
fn lib_test_malformed() {
    for lei in ["", "2594007XIACKNUAW223", "2594007XIACKNUAW22334"] {
        assert_eq!(
            LEI::try_from(lei).unwrap_err(),
            Error::InvalidLength(lei.len())
        );
    }
    assert_eq!(
        LEI::try_from("2594007XIACKNMUAW224").unwrap_err(),
        Error::InvalidChecksum
    );
}

#[test]
fn lib_test_random() {
    LEI::random();
}

#[test]
fn lib_test_accessors() {
    let lei = LEI::try_from("2594007XIACKNMUAW223").unwrap();
    assert_eq!(lei.lou(), "2594");
    assert_eq!(lei.entity(), "7XIACKNMUAW2");
    assert_eq!(lei.to_string(), "2594007XIACKNMUAW223");
}

#[test]
fn lib_test_invalid_char_position() {
    assert_eq!(
        LEI::try_from("#594007XIACKNMUAW223").unwrap_err(),
        Error::InvalidChar { pos: 0, char: '#' }
    );
    assert_eq!(
        LEI::try_from("25!4007XIACKNMUA?223").unwrap_err(),
        Error::InvalidChar { pos: 2, char: '!' }
    );
    assert_eq!(
        LEI::try_from("2594007XIACKNMUAW22#").unwrap_err(),
        Error::InvalidChar { pos: 19, char: '#' }
    );
}

#[test]
fn lib_test_validate_checksum() {
    assert!(validate_checksum("98"));
    assert!(validate_checksum("2594007XIACKNMUAW223"));
    assert!(!validate_checksum("2594007XIACKNMUAW224"));
    assert!(!validate_checksum("97"));
    assert!(!validate_checksum("12#"));
}

#[test]
fn lib_test_case_insensitive_engine() {
    assert_eq!(mod_97("A").unwrap(), 10);
    assert_eq!(mod_97("a").unwrap(), 10);
    assert_eq!(
        mod_97("2594007xiacknmuaw223").unwrap(),
        mod_97("2594007XIACKNMUAW223").unwrap()
    );
    LEI::try_from("2594007xiacknmuaw223").unwrap();
}
