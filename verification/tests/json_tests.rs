use colis_session::json::{parse, Json, Member};

#[test]
fn parse_reads_an_object_with_its_members() {
    let tree = parse("{\"SsoHopps\": \"abc123\", \"n\": 7}").expect("well-formed");
    assert_eq!(
        tree,
        Json::Object(vec![
            Member { name: "SsoHopps".to_string(), value: Json::Text("abc123".to_string()) },
            Member { name: "n".to_string(), value: Json::Number("7".to_string()) },
        ])
    );
}

#[test]
fn parse_rejects_malformed_text() {
    assert_eq!(parse("{\"SsoHopps\": "), None);
    assert_eq!(parse(""), None);
}
