use neohub::codec::encode_envelope;
use neohub::codec::escape;
use neohub::codec::parse_envelope;
use neohub::codec::unescape;

fn bytes(s: &str) -> Vec<u8> {
    s.as_bytes().to_vec()
}

#[test]
fn envelope_matches_the_wire_format_exactly() {
    let envelope = encode_envelope(&bytes("T"), &bytes("GET_LIVE_DATA"), &bytes("0"));
    let expected = r#"{"message_type":"hm_get_command_queue","message":"{\"token\":\"T\",\"COMMANDS\":[{\"COMMAND\":\"{'GET_LIVE_DATA':0}\",\"COMMANDID\":1}]}"}"#;
    assert_eq!(envelope, bytes(expected));
}

#[test]
fn envelope_construction_is_deterministic() {
    let a = encode_envelope(&bytes("T"), &bytes("GET_LIVE_DATA"), &bytes("0"));
    let b = encode_envelope(&bytes("T"), &bytes("GET_LIVE_DATA"), &bytes("0"));
    assert_eq!(a, b);
}

#[test]
fn parsing_recovers_token_command_and_value() {
    let envelope = encode_envelope(&bytes("T"), &bytes("GET_LIVE_DATA"), &bytes("0"));
    let parsed = parse_envelope(&envelope).expect("the envelope just built must parse");
    assert_eq!(parsed.token, bytes("T"));
    assert_eq!(parsed.cmd, bytes("GET_LIVE_DATA"));
    assert_eq!(parsed.id, bytes("0"));
}

#[test]
fn round_trip_keeps_a_list_like_argument() {
    let envelope = encode_envelope(&bytes("secret"), &bytes("RUN_RECIPE"), &bytes("['6am Start Time.']"));
    let parsed = parse_envelope(&envelope).expect("valid envelope must parse");
    assert_eq!(parsed.token, bytes("secret"));
    assert_eq!(parsed.cmd, bytes("RUN_RECIPE"));
    assert_eq!(parsed.id, bytes("['6am Start Time.']"));
}

#[test]
fn round_trip_keeps_a_token_with_a_backslash() {
    let envelope = encode_envelope(&bytes(r"a\b"), &bytes("GET_SYSTEM"), &bytes("0"));
    let parsed = parse_envelope(&envelope).expect("valid envelope must parse");
    assert_eq!(parsed.token, bytes(r"a\b"));
    assert_eq!(parsed.id, bytes("0"));
}

#[test]
fn parse_rejects_a_foreign_message_type() {
    let envelope = bytes(r#"{"message_type":"other","message":"x"}"#);
    assert!(parse_envelope(&envelope).is_none());
}

#[test]
fn parse_rejects_a_truncated_envelope() {
    let mut envelope = encode_envelope(&bytes("T"), &bytes("GET_LIVE_DATA"), &bytes("0"));
    envelope.pop();
    assert!(parse_envelope(&envelope).is_none());
}

#[test]
fn parse_rejects_an_empty_token() {
    let envelope = encode_envelope(&bytes("x"), &bytes("GET_LIVE_DATA"), &bytes("0"));
    // Rewrite the escaped inner message so that the token is empty.
    let text = String::from_utf8(envelope).unwrap();
    let emptied = text.replace(r#"{\"token\":\"x\""#, r#"{\"token\":\"\""#);
    assert!(parse_envelope(&emptied.into_bytes()).is_none());
}

#[test]
fn escape_doubles_quotes_and_backslashes() {
    assert_eq!(escape(&bytes(r#"a"b\c"#)), bytes(r#"a\"b\\c"#));
    assert_eq!(escape(&bytes("plain")), bytes("plain"));
}

#[test]
fn unescape_inverts_escape_and_rejects_bare_specials() {
    assert_eq!(unescape(&escape(&bytes(r#"a"b\c"#))), Some(bytes(r#"a"b\c"#)));
    assert!(unescape(&bytes(r#"a"b"#)).is_none());
    assert!(unescape(&bytes(r"tail\")).is_none());
    assert!(unescape(&bytes(r"bad\x")).is_none());
}
