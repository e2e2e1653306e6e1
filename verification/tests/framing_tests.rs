use colis_session::framing::{decode_if_encoded, quoted_part, unframe};

#[test]
fn a_quoted_base64_body_is_decoded() {
    assert_eq!(decode_if_encoded("\"aGVsbG8gd29ybGQ=\"".to_string()), "hello world");
    assert_eq!(
        decode_if_encoded("\"eyJ0b3VybmVlIjogIsOpdMOpIn0=\"".to_string()),
        "{\"tournee\": \"été\"}"
    );
}

#[test]
fn a_plain_body_is_left_alone() {
    let body = "{\"LstLieuArticle\": []}";
    assert_eq!(decode_if_encoded(body.to_string()), body);
    assert_eq!(decode_if_encoded("aGVsbG8=".to_string()), "aGVsbG8=");
    assert_eq!(decode_if_encoded(String::new()), "");
}

#[test]
fn a_quoted_body_that_is_not_base64_is_left_alone() {
    assert_eq!(decode_if_encoded("\"not base64!\"".to_string()), "\"not base64!\"");
    assert_eq!(decode_if_encoded("\"aGVsbG8\"".to_string()), "\"aGVsbG8\"");
}

#[test]
fn decoded_bytes_that_are_no_text_leave_the_body_alone() {
    assert_eq!(decode_if_encoded("\"/w==\"".to_string()), "\"/w==\"");
}

#[test]
fn a_lone_quote_is_plain_text() {
    assert_eq!(decode_if_encoded("\"".to_string()), "\"");
    assert_eq!(quoted_part("\""), None);
}

#[test]
fn empty_quotes_decode_to_the_empty_text() {
    assert_eq!(quoted_part("\"\""), Some(""));
    assert_eq!(decode_if_encoded("\"\"".to_string()), "");
}

#[test]
fn quoted_part_takes_what_is_between_the_quotes() {
    assert_eq!(quoted_part("\"abc\""), Some("abc"));
    assert_eq!(quoted_part("\"é\""), Some("é"));
    assert_eq!(quoted_part("\"abc"), None);
    assert_eq!(quoted_part("abc\""), None);
    assert_eq!(quoted_part(""), None);
}

#[test]
fn unframe_settles_each_case() {
    assert_eq!(unframe("\"x\"".to_string(), Some(b"hi".to_vec())), "hi");
    assert_eq!(unframe("\"x\"".to_string(), Some(vec![0xff, 0xfe])), "\"x\"");
    assert_eq!(unframe("\"x\"".to_string(), None), "\"x\"");
    assert_eq!(unframe("plain".to_string(), Some(b"hi".to_vec())), "plain");
}
