use chatbot::Json;
use chatbot::decode_response;
use chatbot::parse_document;

#[test]
fn serializes_values_exactly() {
    let j = Json::Obj(vec![
        ("a".to_string(), Json::Arr(vec![
            Json::Null,
            Json::Bool(true),
            Json::Bool(false),
            Json::Num("1.5e3".to_string()),
        ])),
        ("b".to_string(), Json::Str("x\ty".to_string())),
    ]);
    assert_eq!(j.to_json_string(), "{\"a\":[null,true,false,1.5e3],\"b\":\"x\\ty\"}");
}

#[test]
fn parse_then_serialize_is_canonical() {
    let text = " { \"k\" : [ 1 , true , \"a\\u0041b\" , { } ] , \"m\" : null } ";
    let j = parse_document(text).unwrap();
    assert_eq!(j.to_json_string(), "{\"k\":[1,true,\"aAb\",{}],\"m\":null}");
}

#[test]
fn serialize_then_parse_round_trips() {
    let j = Json::Obj(vec![
        ("text".to_string(), Json::Str("line1\nline2 \"quoted\" \\slash".to_string())),
        ("n".to_string(), Json::Num("-12.5".to_string())),
        ("inner".to_string(), Json::Obj(vec![("empty".to_string(), Json::Arr(vec![]))])),
    ]);
    let text = j.to_json_string();
    let back = parse_document(&text).unwrap();
    assert_eq!(back.to_json_string(), text);
}

#[test]
fn control_characters_are_escaped() {
    let j = Json::Str("a\u{1}b".to_string());
    assert_eq!(j.to_json_string(), "\"a\\u0001b\"");
}

#[test]
fn parse_rejects_trailing_garbage() {
    assert!(parse_document("{} x").is_none());
    assert!(parse_document("").is_none());
    assert!(parse_document("tru").is_none());
    assert!(parse_document("{\"a\":}").is_none());
    assert!(parse_document("[1,]").is_none());
}

#[test]
fn parse_rejects_surrogate_escape() {
    assert!(parse_document("\"\\uD800\"").is_none());
    assert!(parse_document("\"\\uDFFF\"").is_none());
}

#[test]
fn parse_rejects_raw_control_in_string() {
    assert!(parse_document("\"a\u{1}b\"").is_none());
}

#[test]
fn decode_response_takes_all_choices() {
    let body = "{\"id\":\"x\",\"choices\":[\
        {\"message\":{\"role\":\"assistant\",\"content\":\"a\"},\"index\":0},\
        {\"message\":{\"content\":\"b\"}}],\"usage\":{\"total_tokens\":3}}";
    let contents = decode_response(body).unwrap();
    assert_eq!(contents, vec!["a".to_string(), "b".to_string()]);
}

#[test]
fn decode_response_decodes_escapes() {
    let body = "{\"choices\":[{\"message\":{\"content\":\"hi\\n\\u00e9\\\"!\"}}]}";
    let contents = decode_response(body).unwrap();
    assert_eq!(contents, vec!["hi\n\u{e9}\"!".to_string()]);
}

#[test]
fn decode_response_rejects_wrong_shapes() {
    assert!(decode_response("[]").is_none());
    assert!(decode_response("{\"choices\":{}}").is_none());
    assert!(decode_response("{\"other\":[]}").is_none());
    assert!(decode_response("{\"choices\":[null]}").is_none());
    assert!(decode_response("{\"choices\":[{\"message\":[]}]}").is_none());
    assert!(decode_response("{\"choices\":[{\"message\":{\"content\":null}}]}").is_none());
}

#[test]
fn decode_response_ignores_unknown_fields() {
    let body = "{\"created\":123,\"object\":\"chat.completion\",\
        \"choices\":[{\"message\":{\"content\":\"ok\",\"extra\":[1,[2,{\"d\":3}]]}}]}";
    let contents = decode_response(body).unwrap();
    assert_eq!(contents, vec!["ok".to_string()]);
}
