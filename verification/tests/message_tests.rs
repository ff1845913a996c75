use defpool_proxy::json::{json_from_text, to_json_text, JsonNum, JsonValue};
use defpool_proxy::sv1::{Sv1Message, Sv1Method};

#[test]
fn test_parse_login() {
    let json = r#"{"id":1,"method":"login","params":["wallet:worker"]}"#;
    let msg = Sv1Message::from_json(json).unwrap();
    assert!(matches!(msg.get_method(), Some(Sv1Method::Login)));
}

#[test]
fn test_serialize_job() {
    let msg = Sv1Message::job("job1", "blob", "target", 100);
    let json = msg.to_json();
    assert!(json.contains("job"));
}

#[test]
fn test_method_classification() {
    assert!(matches!(Sv1Method::from_str("login"), Sv1Method::Login));
    assert!(matches!(Sv1Method::from_str("getjob"), Sv1Method::GetJob));
    assert!(matches!(Sv1Method::from_str("submit"), Sv1Method::Submit));
    assert!(matches!(Sv1Method::from_str("keepalived"), Sv1Method::KeepAlive));
    match Sv1Method::from_str("mining.subscribe") {
        Sv1Method::Unknown(name) => assert_eq!(name, "mining.subscribe"),
        _ => panic!("an unlisted method must classify as unknown"),
    }
    assert_eq!(Sv1Method::from_str("login").as_str(), "login");
    assert_eq!(Sv1Method::from_str("nope").as_str(), "nope");
}

#[test]
fn test_response_classification() {
    let json = r#"{"id":1,"method":null,"params":null,"result":{"status":"OK"},"error":null}"#;
    let msg = Sv1Message::from_json(json).unwrap();
    assert!(msg.is_response());
    assert!(msg.get_method().is_none());

    let err = r#"{"id":1,"error":{"code":-1,"message":"nope"}}"#;
    let msg = Sv1Message::from_json(err).unwrap();
    assert!(msg.is_response());

    let req = r#"{"id":1,"method":"login","params":[]}"#;
    let msg = Sv1Message::from_json(req).unwrap();
    assert!(!msg.is_response());
}

fn assert_same_message(a: &Sv1Message, b: &Sv1Message) {
    assert_eq!(a.to_json(), b.to_json());
}

#[test]
fn test_login_round_trip() {
    let msg = Sv1Message::login(7, "wallet123", "worker1");
    let text = msg.to_json();
    let back = Sv1Message::from_json(&text).unwrap();
    assert_same_message(&msg, &back);
    assert_eq!(back.method, Some("login".to_string()));
    match &back.params.as_ref().unwrap()[0] {
        JsonValue::Str(s) => assert_eq!(s, "wallet123:worker1"),
        _ => panic!("the login parameter must be a string"),
    }
}

#[test]
fn test_submit_round_trip() {
    let msg = Sv1Message::submit(3, "job9", "deadbeef", "00ff");
    let text = msg.to_json();
    let back = Sv1Message::from_json(&text).unwrap();
    assert_same_message(&msg, &back);
    assert_eq!(back.params.as_ref().unwrap().len(), 3);
}

#[test]
fn test_job_round_trip() {
    let msg = Sv1Message::job("job1", "aabb", "00010000", 42);
    let text = msg.to_json();
    let back = Sv1Message::from_json(&text).unwrap();
    assert_same_message(&msg, &back);
    assert!(back.id.is_none());
    assert_eq!(back.method, Some("job".to_string()));
}

#[test]
fn test_ok_response_round_trip() {
    let id = JsonValue::Num(JsonNum { neg: false, mag: 12 });
    let result = JsonValue::Str("fine".to_string());
    let msg = Sv1Message::ok_response(id, result);
    let text = msg.to_json();
    let back = Sv1Message::from_json(&text).unwrap();
    assert_same_message(&msg, &back);
    assert!(back.result.is_some());
    assert!(back.error.is_none());
}

#[test]
fn test_error_response_round_trip() {
    let id = JsonValue::Num(JsonNum { neg: false, mag: 4 });
    let msg = Sv1Message::error_response(id, -1, "Invalid submit parameters");
    let text = msg.to_json();
    let back = Sv1Message::from_json(&text).unwrap();
    assert_same_message(&msg, &back);
    match back.error.as_ref().unwrap() {
        JsonValue::Obj(members) => {
            assert_eq!(members[0].0, "code");
            match &members[0].1 {
                JsonValue::Num(n) => {
                    assert!(n.neg);
                    assert_eq!(n.mag, 1);
                },
                _ => panic!("the code must be a number"),
            }
            match &members[1].1 {
                JsonValue::Str(s) => assert_eq!(s, "Invalid submit parameters"),
                _ => panic!("the message must be a string"),
            }
        },
        _ => panic!("the error must be an object"),
    }
}

#[test]
fn test_json_value_round_trip() {
    let text = r#"{"a":[1,-2,true,false,null],"b":"x","c":{"d":"e"}}"#;
    let v = json_from_text(text).unwrap();
    assert_eq!(to_json_text(&v), text);
}

#[test]
fn test_whitespace_between_tokens_is_accepted() {
    let text = "{ \"id\": 1, \"method\": \"login\",\n\t\"params\": [ \"w:k\" ] }";
    let msg = Sv1Message::from_json(text).unwrap();
    assert_eq!(msg.method, Some("login".to_string()));
    match &msg.params.as_ref().unwrap()[0] {
        JsonValue::Str(s) => assert_eq!(s, "w:k"),
        _ => panic!("the login parameter must be a string"),
    }

    // Whitespace inside string literals is significant and kept.
    match json_from_text("\" a b \"").unwrap() {
        JsonValue::Str(s) => assert_eq!(s, " a b "),
        _ => panic!("a string literal must parse back as a string"),
    }
}

#[test]
fn test_json_rejects_malformed_text() {
    assert!(json_from_text("").is_none());
    assert!(json_from_text("{").is_none());
    assert!(json_from_text("1.5").is_none());
    assert!(json_from_text("[1,]").is_none());
    assert!(json_from_text("\"unterminated").is_none());
    assert!(json_from_text("{\"a\":1}x").is_none());
}

#[test]
fn test_string_escapes_round_trip() {
    let v = JsonValue::Str("a\"b\\c\td".to_string());
    let text = to_json_text(&v);
    assert_eq!(text, "\"a\\\"b\\\\c\\u0009d\"");
    match json_from_text(&text).unwrap() {
        JsonValue::Str(s) => assert_eq!(s, "a\"b\\c\td"),
        _ => panic!("a string literal must parse back as a string"),
    }
}

#[test]
fn test_escape_shorthands_parse() {
    match json_from_text("\"a\\n\\t\\/\\u0041\"").unwrap() {
        JsonValue::Str(s) => assert_eq!(s, "a\n\t/A"),
        _ => panic!("a string literal must parse back as a string"),
    }
}

#[test]
fn test_message_with_wrong_field_shape_is_rejected() {
    assert!(Sv1Message::from_json(r#"{"method":7}"#).is_err());
    assert!(Sv1Message::from_json(r#"{"params":"x"}"#).is_err());
    assert!(Sv1Message::from_json(r#"[1,2]"#).is_err());
    assert!(Sv1Message::from_json("not json").is_err());
}

#[test]
fn test_unknown_keys_are_ignored() {
    let msg = Sv1Message::from_json(r#"{"id":1,"method":"login","jsonrpc":"2.0"}"#).unwrap();
    assert_eq!(msg.method, Some("login".to_string()));
}
