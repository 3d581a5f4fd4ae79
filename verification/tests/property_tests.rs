use leim::{Error, LEI};

#[test]
fn test_parse_idempotent() {
    let first = LEI::try_from("2594007XIACKNMUAW223");
    let second = LEI::try_from("2594007XIACKNMUAW223");
    assert_eq!(first, second);
    let first_err = LEI::try_from("2594007XIACKNMUAW224");
    let second_err = LEI::try_from("2594007XIACKNMUAW224");
    assert_eq!(first_err, second_err);
}

#[test]
fn test_random_round_trip() {
    let lei = LEI::random();
    let s = lei.to_string();
    let reparsed = LEI::try_from(&s).unwrap();
    assert_eq!(reparsed, lei);
}

#[test]
fn test_random_structure() {
    let s = LEI::random().to_string();
    assert_eq!(s.len(), 20);
    assert_eq!(&s[4..6], "00");
    assert!(s
        .chars()
        .all(|c| c.is_ascii_digit() || c.is_ascii_uppercase()));
    assert!(s[18..20].chars().all(|c| c.is_ascii_digit()));
}

#[test]
fn test_random_check_digit_relation() {
    let s = LEI::random().to_string();
    let placeholder = format!("{}00", &s[..18]);
    let residue = leim::mod_97(&placeholder).unwrap();
    let check: u32 = s[18..20].parse().unwrap();
    assert_eq!(check, 98 - residue);
}

#[test]
fn test_length_boundaries() {
    assert_eq!(
        LEI::try_from("2594007XIACKNUAW223").unwrap_err(),
        Error::InvalidLength(19)
    );
    assert_eq!(
        LEI::try_from("2594007XIACKNUAW22334").unwrap_err(),
        Error::InvalidLength(21)
    );
}
