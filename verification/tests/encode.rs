use bendy::decoding::FromBencode;
use bendy::value::Value;
use netpod::{
    encode_reply, err_response, handle_describe, invoke_response, DescribeResponse, ErrorResponse,
    InvokeResponse, Namespace, NetpodError, Response, Status, Var,
};

fn text(value: &Value) -> String {
    match value {
        Value::Bytes(bytes) => String::from_utf8(bytes.to_vec()).unwrap(),
        other => panic!("{:?}", other),
    }
}

fn status(value: &Value) -> Status {
    match text(value).as_str() {
        "done" => Status::Done,
        "error" => Status::Error,
        other => panic!("{}", other),
    }
}

fn entry<'a>(value: &'a Value<'a>, key: &[u8]) -> Option<&'a Value<'a>> {
    match value {
        Value::Dict(entries) => entries.iter().find(|(k, _)| k.as_ref() == key).map(|(_, v)| v),
        other => panic!("{:?}", other),
    }
}

fn items<'a>(value: &'a Value<'a>) -> &'a Vec<Value<'a>> {
    match value {
        Value::List(items) => items,
        other => panic!("{:?}", other),
    }
}

/// Reads a response back from the wire, telling the variants apart by the
/// fields that are there.
fn decode_response(bytes: &[u8]) -> Response {
    let value = Value::from_bencode(bytes).unwrap();
    if let Some(namespaces) = entry(&value, b"namespaces") {
        Response::Describe(DescribeResponse {
            format: text(entry(&value, b"format").unwrap()),
            namespaces: items(namespaces)
                .iter()
                .map(|n| Namespace {
                    name: text(entry(n, b"name").unwrap()),
                    vars: items(entry(n, b"vars").unwrap())
                        .iter()
                        .map(|v| Var { name: text(entry(v, b"name").unwrap()) })
                        .collect(),
                })
                .collect(),
        })
    } else if let Some(payload) = entry(&value, b"value") {
        Response::Invoke(InvokeResponse {
            id: text(entry(&value, b"id").unwrap()),
            status: status(entry(&value, b"status").unwrap()),
            value: match payload {
                Value::Bytes(bytes) => bytes.to_vec(),
                other => panic!("{:?}", other),
            },
        })
    } else {
        Response::Error(ErrorResponse {
            id: entry(&value, b"id").map(text),
            status: status(entry(&value, b"status").unwrap()),
            ex_message: text(entry(&value, b"ex-message").unwrap()),
        })
    }
}

fn sample_description() -> Response {
    Response::Describe(DescribeResponse {
        format: "json".to_string(),
        namespaces: vec![
            Namespace {
                name: "math".to_string(),
                vars: vec![Var { name: "add".to_string() }, Var { name: "sub".to_string() }],
            },
            Namespace { name: "str".to_string(), vars: vec![Var { name: "upper".to_string() }] },
        ],
    })
}

#[test]
fn an_invoke_response_is_a_dictionary_of_id_status_and_value() {
    let response = invoke_response("42".to_string(), b"3".to_vec());
    assert_eq!(response.to_bencode().unwrap(), b"d2:id2:426:status4:done5:value1:3e".to_vec());
}

#[test]
fn the_value_goes_out_as_raw_bytes() {
    let response = invoke_response("1".to_string(), vec![0, 255, b'e', b':']);
    let mut expected = b"d2:id1:16:status4:done5:value4:".to_vec();
    expected.extend_from_slice(&[0, 255, b'e', b':']);
    expected.push(b'e');
    assert_eq!(response.to_bencode().unwrap(), expected);
}

#[test]
fn an_error_response_carries_its_id_between_message_and_status() {
    let response = err_response(Some("7".to_string()), NetpodError::Message("boom".to_string()));
    assert_eq!(
        response.to_bencode().unwrap(),
        b"d10:ex-message4:boom2:id1:76:status5:errore".to_vec()
    );
}

#[test]
fn an_error_response_without_id_has_no_id_field() {
    let response = err_response(None, NetpodError::Message("boom".to_string()));
    assert_eq!(response.to_bencode().unwrap(), b"d10:ex-message4:boom6:status5:errore".to_vec());
}

#[test]
fn a_description_nests_namespaces_and_vars() {
    let expected = [
        &b"d6:format4:json10:namespacesl"[..],
        b"d4:name4:math4:varsl",
        b"d4:name3:adde",
        b"d4:name3:sube",
        b"ee",
        b"d4:name3:str4:varsl",
        b"d4:name5:uppere",
        b"ee",
        b"ee",
    ]
    .concat();
    assert_eq!(sample_description().to_bencode().unwrap(), expected);
}

#[test]
fn an_empty_description_has_an_empty_list() {
    let response = handle_describe(&Vec::new()).unwrap();
    assert_eq!(response.to_bencode().unwrap(), b"d6:format4:json10:namespaceslee".to_vec());
}

#[test]
fn text_is_encoded_as_utf8_with_its_byte_length() {
    let response = invoke_response("h\u{e9}".to_string(), Vec::new());
    assert_eq!(
        response.to_bencode().unwrap(),
        b"d2:id3:h\xc3\xa96:status4:done5:value0:e".to_vec()
    );
}

#[test]
fn a_description_survives_the_round_trip() {
    let bytes = sample_description().to_bencode().unwrap();
    assert_eq!(decode_response(&bytes), sample_description());
}

#[test]
fn an_invoke_response_survives_the_round_trip() {
    let bytes = invoke_response("42".to_string(), vec![1, 2, 3, 0, 255]).to_bencode().unwrap();
    assert_eq!(decode_response(&bytes), invoke_response("42".to_string(), vec![1, 2, 3, 0, 255]));
}

#[test]
fn an_error_response_survives_the_round_trip() {
    let with_id = err_response(Some("9".to_string()), NetpodError::Other("late".to_string()));
    let bytes = with_id.to_bencode().unwrap();
    assert_eq!(
        decode_response(&bytes),
        err_response(Some("9".to_string()), NetpodError::Other("late".to_string()))
    );
    let without_id = err_response(None, NetpodError::IO("gone".to_string()));
    let bytes = without_id.to_bencode().unwrap();
    assert_eq!(decode_response(&bytes), err_response(None, NetpodError::IO("gone".to_string())));
}

#[test]
fn every_encoded_response_ends_with_the_delimiter() {
    for response in [
        sample_description(),
        invoke_response("1".to_string(), b"x".to_vec()),
        err_response(None, NetpodError::Message("m".to_string())),
    ] {
        let bytes = response.to_bencode().unwrap();
        assert_eq!(bytes.first(), Some(&b'd'));
        assert_eq!(bytes.last(), Some(&b'e'));
    }
}

#[test]
fn the_reply_is_the_encoding_of_the_response() {
    let response = invoke_response("42".to_string(), b"3".to_vec());
    assert_eq!(encode_reply(&response), Some(b"d2:id2:426:status4:done5:value1:3e".to_vec()));
}
