use bolt_core::response_meta::ResponseType;

#[test]
fn test_response_type_from_str() {
    assert_eq!(ResponseType::from_str("json"), ResponseType::Json);
    assert_eq!(ResponseType::from_str("html"), ResponseType::Html);
    assert_eq!(ResponseType::from_str("plaintext"), ResponseType::PlainText);
    assert_eq!(ResponseType::from_str("redirect"), ResponseType::Redirect);
    assert_eq!(ResponseType::from_str("file"), ResponseType::File);
    assert_eq!(ResponseType::from_str("streaming"), ResponseType::Streaming);
    assert_eq!(ResponseType::from_str("unknown"), ResponseType::OctetStream);
}

#[test]
fn test_response_type_content_type() {
    assert_eq!(ResponseType::Json.content_type(), "application/json");
    assert_eq!(ResponseType::Html.content_type(), "text/html; charset=utf-8");
    assert_eq!(ResponseType::PlainText.content_type(), "text/plain; charset=utf-8");
    assert_eq!(ResponseType::OctetStream.content_type(), "application/octet-stream");
    assert_eq!(ResponseType::Redirect.content_type(), "");
    assert_eq!(ResponseType::File.content_type(), "");
    assert_eq!(ResponseType::Streaming.content_type(), "");
}

#[test]
fn response_type_tags_are_case_sensitive() {
    assert_eq!(ResponseType::from_str("JSON"), ResponseType::OctetStream);
    assert_eq!(ResponseType::from_str(""), ResponseType::OctetStream);
}
