//! The JSON parser and serializer on their own.

use llm_repl::json::{parse_document, Json, ParseOut, parse_value_at, json_serialize_into};

fn ser(j: &Json) -> Vec<u8> {
    let mut out = Vec::new();
    json_serialize_into(&mut out, j);
    out
}

#[test]
fn document_round_trip() {
    let payloads: [&[u8]; 6] = [
        b"null",
        b"[true,false,null]",
        b"{\"a\":1,\"b\":[2,3.5e-1],\"c\":{\"d\":\"e\"}}",
        b"\"plain\"",
        b"  {  \"k\" : \"v\" }  ",
        b"[{\"x\":[]},{\"y\":{}}]",
    ];
    for p in payloads {
        let v = parse_document(&p.to_vec()).expect("well-formed payload");
        let again = parse_document(&ser(&v)).expect("serialized form parses");
        assert_eq!(ser(&v), ser(&again));
    }
}

#[test]
fn document_rejects_trailing_junk() {
    assert!(parse_document(&b"{} junk".to_vec()).is_none());
    assert!(parse_document(&b"".to_vec()).is_none());
    assert!(parse_document(&b"{\"a\":}".to_vec()).is_none());
}

#[test]
fn escapes_round_trip() {
    let v = parse_document(&b"\"a\\u0041\\n\\t\\\\ \\\"q\\\" \\u00e9\\ud83d\\ude00\"".to_vec())
        .expect("escaped string parses");
    match &v {
        Json::Str(t) => {
            assert_eq!(t, "aA\n\t\\ \"q\" \u{e9}\u{1f600}".as_bytes());
        },
        _ => panic!("expected a string"),
    }
    // Serialization escapes the control bytes again.
    assert_eq!(
        ser(&v),
        b"\"aA\\n\\t\\\\ \\\"q\\\" \xc3\xa9\xf0\x9f\x98\x80\"".to_vec(),
    );
}

#[test]
fn incomplete_versus_invalid() {
    // A value cut short is incomplete; wrong bytes are invalid.
    let cut = b"{\"a\":[1,2".to_vec();
    match parse_value_at(&cut, 0, 64) {
        ParseOut::Incomplete => {},
        _ => panic!("expected an incomplete prefix"),
    }
    let bad = b"{\"a\":[1,2}]".to_vec();
    match parse_value_at(&bad, 0, 64) {
        ParseOut::Invalid => {},
        _ => panic!("expected a syntax error"),
    }
    // A number at the buffer's edge may still grow.
    match parse_value_at(&b"12".to_vec(), 0, 64) {
        ParseOut::Incomplete => {},
        _ => panic!("expected an incomplete number"),
    }
    match parse_value_at(&b"12 ".to_vec(), 0, 64) {
        ParseOut::Found(Json::Num(raw), 2) => assert_eq!(raw, b"12".to_vec()),
        _ => panic!("expected the number to end at the space"),
    }
}

#[test]
fn duplicate_free_lookup_order() {
    // Nested containers parse into the expected shape.
    let v = parse_document(&b"{\"outer\":{\"inner\":[\"x\"]}}".to_vec()).unwrap();
    match v {
        Json::Obj(entries) => {
            assert_eq!(entries.len(), 1);
            assert_eq!(entries[0].0, b"outer".to_vec());
        },
        _ => panic!("expected an object"),
    }
}
