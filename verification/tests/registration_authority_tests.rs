use leim::registration_authority::is;

#[test]
fn test_placeholders() {
    assert!(is("RA888888"));
    assert!(is("RA999999"));
}

#[test]
fn test_is() {
    assert!(is("RA000001"));
    assert!(!is("RA100001"));
}

#[test]
fn test_is_exact_match_only() {
    assert!(!is("ra888888"));
    assert!(!is("RA88888"));
    assert!(!is("RA8888888"));
    assert!(!is(""));
    assert!(is("RA000653"));
}
