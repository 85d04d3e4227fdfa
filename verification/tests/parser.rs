use tsnc::parser::parse_typescript;

#[test]
fn parses_typescript_function() {
    let m = parse_typescript("function add(a: number, b: number): number { return a + b; }").unwrap();
    assert_eq!(m.body.len(), 1);
}

#[test]
fn refuses_broken_source() {
    let r = parse_typescript("function (");
    assert!(r.is_err());
    assert!(!r.err().unwrap().message.is_empty());
}
