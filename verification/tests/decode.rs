use netpod::codec::{Dictionary, Field};
use netpod::{decode_request, DecodeError, NetpodError, Op, Request};

fn text(s: &str) -> Option<String> {
    Some(s.to_string())
}

fn field(key: &[u8], value: &str) -> Field {
    Field { key: key.to_vec(), text: Ok(value.to_string()) }
}

fn keep_reading() -> NetpodError {
    NetpodError::Message("keep reading".to_string())
}

#[test]
fn decodes_a_describe_request() {
    let request = decode_request(b"d2:op8:describee").unwrap();
    assert_eq!(request, Request { op: Op::Describe, id: None, var: None, args: None });
}

#[test]
fn decodes_every_field_of_an_invoke_request() {
    let request = decode_request(b"d4:args5:[1,2]2:id2:422:op6:invoke3:var8:math/adde").unwrap();
    assert_eq!(
        request,
        Request { op: Op::Invoke, id: text("42"), var: text("math/add"), args: text("[1,2]") }
    );
}

#[test]
fn op_defaults_to_describe_when_absent() {
    let request = decode_request(b"d2:id1:7e").unwrap();
    assert_eq!(request.op, Op::Describe);
    assert_eq!(request.id, text("7"));
    let empty = decode_request(b"de").unwrap();
    assert_eq!(empty, Request { op: Op::Describe, id: None, var: None, args: None });
}

#[test]
fn an_unknown_operation_falls_back_to_describe() {
    let request = decode_request(b"d2:id1:72:op4:danc3:var1:xe").unwrap();
    assert_eq!(
        request,
        Request { op: Op::Describe, id: text("7"), var: text("x"), args: None }
    );
}

#[test]
fn an_unknown_field_is_refused_by_name() {
    let refused = decode_request(b"d5:bogus1:x2:op8:describee").unwrap_err();
    assert_eq!(
        refused,
        NetpodError::BendyDecoding(DecodeError::UnexpectedField("bogus".to_string()))
    );
    assert_eq!(
        refused.to_string(),
        "bendy decoding error: Error: unexpected field: bogus"
    );
}

#[test]
fn an_unknown_field_that_is_not_text_is_named_with_replacements() {
    let refused = decode_request(b"d2:\xff\xfe1:xe").unwrap_err();
    assert_eq!(
        refused,
        NetpodError::BendyDecoding(DecodeError::UnexpectedField("\u{fffd}\u{fffd}".to_string()))
    );
}

#[test]
fn a_field_that_holds_a_number_is_refused_under_its_name() {
    let refused = decode_request(b"d2:idi42ee").unwrap_err();
    assert_eq!(
        refused,
        NetpodError::BendyDecoding(DecodeError::BadField {
            field: "id".to_string(),
            detail: "Error: discovered String but expected Num".to_string(),
        })
    );
    assert_eq!(
        refused.to_string(),
        "bendy decoding error: Error: discovered String but expected Num in id"
    );
}

#[test]
fn each_recognised_field_must_hold_text() {
    for (bytes, name) in [
        (&b"d4:argsi1ee"[..], "args"),
        (&b"d2:opi1ee"[..], "op"),
        (&b"d3:varlee"[..], "var"),
        (&b"d2:iddee"[..], "id"),
    ] {
        match decode_request(bytes).unwrap_err() {
            NetpodError::BendyDecoding(DecodeError::BadField { field, .. }) => {
                assert_eq!(field, name)
            }
            other => panic!("{:?}", other),
        }
    }
}

#[test]
fn a_field_that_is_not_utf8_is_refused() {
    match decode_request(b"d2:id2:\xff\xfee").unwrap_err() {
        NetpodError::BendyDecoding(DecodeError::BadField { field, detail }) => {
            assert_eq!(field, "id");
            assert!(detail.starts_with("Error: malformed content discovered"));
        }
        other => panic!("{:?}", other),
    }
}

#[test]
fn a_dictionary_that_breaks_off_is_malformed() {
    assert_eq!(
        decode_request(b"d2:ide"),
        Err(NetpodError::BendyDecoding(DecodeError::Malformed(
            "Error: bencode encoding corrupted (Saw the wrong type of token: Missing map value)"
                .to_string()
        )))
    );
}

#[test]
fn keys_out_of_order_are_malformed() {
    assert_eq!(
        decode_request(b"d2:op8:describe2:id1:7e"),
        Err(NetpodError::BendyDecoding(DecodeError::Malformed(
            "Error: bencode encoding corrupted (Keys were not sorted)".to_string()
        )))
    );
}

#[test]
fn what_is_no_dictionary_is_malformed() {
    assert_eq!(
        decode_request(b"le"),
        Err(NetpodError::BendyDecoding(DecodeError::Malformed(
            "Error: discovered Dict but expected List".to_string()
        )))
    );
    assert_eq!(
        decode_request(b"5:value"),
        Err(NetpodError::BendyDecoding(DecodeError::Malformed(
            "Error: discovered Dict but expected String".to_string()
        )))
    );
}

#[test]
fn a_refused_field_comes_before_a_later_break() {
    assert_eq!(
        decode_request(b"d5:bogus1:x2:ide"),
        Err(NetpodError::BendyDecoding(DecodeError::UnexpectedField("bogus".to_string())))
    );
}

#[test]
fn a_buffer_without_delimiter_is_incomplete() {
    assert_eq!(decode_request(b"d2:id2:42"), Err(keep_reading()));
    assert_eq!(decode_request(b"d"), Err(keep_reading()));
}

#[test]
fn an_empty_buffer_is_incomplete() {
    assert_eq!(decode_request(b""), Err(keep_reading()));
}

#[test]
fn bytes_after_the_dictionary_are_not_read() {
    let request = decode_request(b"d2:id1:7ee").unwrap();
    assert_eq!(request.id, text("7"));
}

#[test]
fn a_request_is_read_from_the_fields_in_order() {
    let dictionary = Dictionary {
        fields: vec![field(b"id", "1"), field(b"op", "invoke"), field(b"id", "2")],
        failure: None,
    };
    assert_eq!(
        Request::decode_bencode_object(&dictionary),
        Ok(Request { op: Op::Invoke, id: text("2"), var: None, args: None })
    );
}

#[test]
fn the_first_refusal_wins() {
    let dictionary = Dictionary {
        fields: vec![
            field(b"id", "1"),
            Field { key: b"var".to_vec(), text: Err("no text".to_string()) },
            field(b"nope", "x"),
        ],
        failure: Some("broken".to_string()),
    };
    assert_eq!(
        Request::decode_bencode_object(&dictionary),
        Err(DecodeError::BadField { field: "var".to_string(), detail: "no text".to_string() })
    );
}

#[test]
fn a_failure_of_the_codec_refuses_accepted_fields() {
    let dictionary =
        Dictionary { fields: vec![field(b"id", "1")], failure: Some("broken".to_string()) };
    assert_eq!(
        Request::decode_bencode_object(&dictionary),
        Err(DecodeError::Malformed("broken".to_string()))
    );
}

#[test]
fn keys_are_matched_byte_for_byte() {
    let dictionary = Dictionary { fields: vec![field(b"ID", "1")], failure: None };
    assert_eq!(
        Request::decode_bencode_object(&dictionary),
        Err(DecodeError::UnexpectedField("ID".to_string()))
    );
    let shorter = Dictionary { fields: vec![field(b"i", "1")], failure: None };
    assert_eq!(
        Request::decode_bencode_object(&shorter),
        Err(DecodeError::UnexpectedField("i".to_string()))
    );
}
