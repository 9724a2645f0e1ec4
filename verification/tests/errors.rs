use netpod::{
    err_response, from_error, invoke_response, DecodeError, ErrorResponse, InvokeResponse,
    NetpodError, Op, Response, Status,
};

#[test]
fn each_failure_has_its_text() {
    assert_eq!(NetpodError::IO("broken pipe".to_string()).to_string(), "netpod io error: broken pipe");
    assert_eq!(NetpodError::Message("plain".to_string()).to_string(), "plain");
    assert_eq!(
        NetpodError::BendyDecoding(DecodeError::Malformed("Error: x".to_string())).to_string(),
        "bendy decoding error: Error: x"
    );
    assert_eq!(
        NetpodError::BendyEncoding("encoding failed: y".to_string()).to_string(),
        "bendy encoding error: encoding failed: y"
    );
    assert_eq!(NetpodError::Other("anything".to_string()).to_string(), "anything");
}

#[test]
fn each_decode_failure_has_its_text() {
    assert_eq!(DecodeError::Malformed("Error: x".to_string()).to_string(), "Error: x");
    assert_eq!(
        DecodeError::BadField { field: "id".to_string(), detail: "Error: y".to_string() }
            .to_string(),
        "Error: y in id"
    );
    assert_eq!(
        DecodeError::UnexpectedField("bogus".to_string()).to_string(),
        "Error: unexpected field: bogus"
    );
}

#[test]
fn text_converts_into_a_message() {
    assert_eq!(NetpodError::from("keep reading"), NetpodError::Message("keep reading".to_string()));
    assert_eq!(
        NetpodError::from("owned".to_string()),
        NetpodError::Message("owned".to_string())
    );
    let converted: NetpodError = "into".into();
    assert_eq!(converted, NetpodError::Message("into".to_string()));
}

#[test]
fn a_decode_failure_converts_into_a_decoding_error() {
    assert_eq!(
        NetpodError::from(DecodeError::UnexpectedField("x".to_string())),
        NetpodError::BendyDecoding(DecodeError::UnexpectedField("x".to_string()))
    );
}

#[test]
fn any_other_failure_is_kept_by_its_description() {
    assert_eq!(from_error("disk full".to_string()), NetpodError::Other("disk full".to_string()));
    assert_eq!(from_error("disk full".to_string()).to_string(), "disk full");
}

#[test]
fn operations_are_read_from_their_wire_strings() {
    assert_eq!(Op::from_str("describe"), Ok(Op::Describe));
    assert_eq!(Op::from_str("invoke"), Ok(Op::Invoke));
    assert_eq!(Op::from_str("dance"), Err("Invalid operation: dance".to_string()));
    assert_eq!(Op::from_str("Describe"), Err("Invalid operation: Describe".to_string()));
    assert_eq!(Op::from_str(""), Err("Invalid operation: ".to_string()));
}

#[test]
fn statuses_have_their_wire_strings() {
    assert_eq!(Status::Done.as_str(), "done");
    assert_eq!(Status::Error.as_str(), "error");
}

#[test]
fn an_error_response_carries_the_text_of_the_failure() {
    assert_eq!(
        err_response(Some("42".to_string()), NetpodError::IO("gone".to_string())),
        Response::Error(ErrorResponse {
            id: Some("42".to_string()),
            status: Status::Error,
            ex_message: "netpod io error: gone".to_string(),
        })
    );
    assert_eq!(
        err_response(None, NetpodError::Message("m".to_string())),
        Response::Error(ErrorResponse {
            id: None,
            status: Status::Error,
            ex_message: "m".to_string()
        })
    );
}

#[test]
fn an_invoke_response_is_done() {
    assert_eq!(
        invoke_response("42".to_string(), vec![1, 2]),
        Response::Invoke(InvokeResponse {
            id: "42".to_string(),
            status: Status::Done,
            value: vec![1, 2]
        })
    );
}
