use guerrillamail::client::decode_create_email_response;
use guerrillamail::client::decode_fetch_email_response;
use guerrillamail::client::decode_messages_response;
use guerrillamail::json::get_str_field;
use guerrillamail::model::message_from_json;
use guerrillamail::Error;
use guerrillamail::JsonValue;

#[test]
fn create_returns_assigned_address_verbatim() {
    let body = r#"{"email_addr":"myalias@guerrillamail.com","alias":"x"}"#;
    assert_eq!(decode_create_email_response(body).unwrap(), "myalias@guerrillamail.com");
}

#[test]
fn create_without_field_is_parse_error() {
    let body = r#"{"alias":"x"}"#;
    assert_eq!(decode_create_email_response(body), Err(Error::ResponseParse));
}

#[test]
fn create_with_non_string_field_is_parse_error() {
    let body = r#"{"email_addr":7}"#;
    assert_eq!(decode_create_email_response(body), Err(Error::ResponseParse));
}

#[test]
fn create_with_invalid_json_is_parse_error() {
    assert_eq!(decode_create_email_response("not json"), Err(Error::ResponseParse));
}

fn entry(id: &str, from: &str, subject: &str, date: &str) -> String {
    format!(
        r#"{{"mail_id":"{}","mail_from":"{}","mail_subject":"{}","mail_date":"{}"}}"#,
        id, from, subject, date
    )
}

#[test]
fn listing_keeps_well_formed_entries_and_drops_malformed_ones() {
    let good1 = entry("1", "a@x.com", "hi", "2024-01-01");
    let good2 = entry("2", "b@x.com", "re", "2024-01-02");
    let bad1 = r#"{"mail_id":"3"}"#;
    let bad2 = r#"{"mail_id":4,"mail_from":"c@x.com","mail_subject":"s","mail_date":"d"}"#;
    let body = format!(r#"{{"list":[{},{},{},{}]}}"#, good1, bad1, good2, bad2);
    let msgs = decode_messages_response(&body).unwrap();
    assert_eq!(msgs.len(), 2);
    assert_eq!(msgs[0].mail_id, "1");
    assert_eq!(msgs[0].mail_from, "a@x.com");
    assert_eq!(msgs[0].mail_subject, "hi");
    assert_eq!(msgs[1].mail_id, "2");
}

#[test]
fn listing_of_empty_array_is_empty_not_an_error() {
    let body = r#"{"list":[]}"#;
    let msgs = decode_messages_response(body).unwrap();
    assert!(msgs.is_empty());
}

#[test]
fn listing_without_list_field_is_empty() {
    let body = r#"{"count":0}"#;
    assert!(decode_messages_response(body).unwrap().is_empty());
}

#[test]
fn listing_with_invalid_json_is_parse_error() {
    assert_eq!(decode_messages_response("{oops"), Err(Error::ResponseParse));
}

fn full_detail_body() -> String {
    r#"{"mail_id":"9","mail_from":"a@x.com","mail_subject":"hello","mail_date":"2024-02-02","mail_body":"<p>hi</p>","attachments":[{"file_name":"a.txt","content_type":"text/plain"}]}"#.to_string()
}

#[test]
fn fetch_decodes_full_detail() {
    let d = decode_fetch_email_response(&full_detail_body()).unwrap();
    assert_eq!(d.mail_id, "9");
    assert_eq!(d.mail_from, "a@x.com");
    assert_eq!(d.mail_subject, "hello");
    assert_eq!(d.mail_date, "2024-02-02");
    assert_eq!(d.mail_body, "<p>hi</p>");
    assert_eq!(d.attachments.len(), 1);
    assert_eq!(d.attachments[0].file_name, "a.txt");
    assert_eq!(d.attachments[0].content_type, "text/plain");
}

#[test]
fn fetch_with_empty_attachments_decodes() {
    let body = r#"{"mail_id":"9","mail_from":"a@x.com","mail_subject":"s","mail_date":"d","mail_body":"b","attachments":[]}"#;
    let d = decode_fetch_email_response(body).unwrap();
    assert!(d.attachments.is_empty());
}

#[test]
fn fetch_missing_required_field_is_parse_error() {
    let body = r#"{"mail_id":"9","mail_from":"a@x.com","mail_subject":"s","mail_date":"d","attachments":[]}"#;
    assert_eq!(decode_fetch_email_response(body), Err(Error::ResponseParse));
}

#[test]
fn fetch_with_malformed_attachment_is_parse_error() {
    let body = r#"{"mail_id":"9","mail_from":"a@x.com","mail_subject":"s","mail_date":"d","mail_body":"b","attachments":[{"file_name":"a.txt"}]}"#;
    assert_eq!(decode_fetch_email_response(body), Err(Error::ResponseParse));
}

#[test]
fn fetch_with_invalid_json_is_parse_error() {
    assert_eq!(decode_fetch_email_response(""), Err(Error::ResponseParse));
}

#[test]
fn message_decodes_from_constructed_value() {
    let v = JsonValue::Object(vec![
        ("mail_id".to_string(), JsonValue::Text("5".to_string())),
        ("mail_from".to_string(), JsonValue::Text("who@x.com".to_string())),
        ("mail_subject".to_string(), JsonValue::Text("subj".to_string())),
        ("mail_date".to_string(), JsonValue::Text("today".to_string())),
    ]);
    let m = message_from_json(&v).unwrap();
    assert_eq!(m.mail_id, "5");
    assert_eq!(m.mail_from, "who@x.com");
}

#[test]
fn message_with_missing_field_does_not_decode() {
    let v = JsonValue::Object(vec![("mail_id".to_string(), JsonValue::Text("5".to_string()))]);
    assert!(message_from_json(&v).is_none());
}

#[test]
fn first_field_with_a_name_wins() {
    let v = JsonValue::Object(vec![
        ("k".to_string(), JsonValue::Text("first".to_string())),
        ("k".to_string(), JsonValue::Text("second".to_string())),
    ]);
    assert_eq!(get_str_field(&v, "k").unwrap(), "first");
}

#[test]
fn str_field_of_non_object_is_none() {
    assert!(get_str_field(&JsonValue::Null, "k").is_none());
    assert!(get_str_field(&JsonValue::Array(vec![]), "k").is_none());
}

#[test]
fn unrelated_fields_do_not_disturb_decoding() {
    let body = r#"{"email_addr":"a@b.c","count":12,"ok":true,"extra":null}"#;
    assert_eq!(decode_create_email_response(body).unwrap(), "a@b.c");
}
