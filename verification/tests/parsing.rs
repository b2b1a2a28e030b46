use slp_client::json::{parse_response, process_response};
use slp_client::packet::read_response;
use slp_client::status::{normalize_sample, normalize_status, strip_favicon, Description, Player};
use slp_client::varint::encode_varint;
use slp_client::SlpError;

const FULL: &str = "{\"description\":\"A Server\",\"players\":{\"online\":3,\"max\":20},\
\"version\":{\"name\":\"1.20.1\",\"protocol\":763}}";

#[test]
fn parse_full_document() {
    let data = parse_response(FULL).unwrap();
    match data.description {
        Description::Text(ref t) => assert_eq!(t, "A Server"),
        _ => panic!("expected the bare string shape"),
    }
    assert_eq!(data.players.online, 3);
    assert_eq!(data.players.max, 20);
    assert!(data.players.sample.is_none());
    assert_eq!(data.version.name, "1.20.1");
    assert_eq!(data.version.protocol, 763);
    assert!(data.favicon.is_none());
}

#[test]
fn description_both_shapes_resolve_alike() {
    let bare = "{\"description\":\"Hello\",\"players\":{\"online\":0,\"max\":10},\
\"version\":{\"name\":\"1.20.1\",\"protocol\":763}}";
    let object = "{\"description\":{\"text\":\"Hello\"},\"players\":{\"online\":0,\"max\":10},\
\"version\":{\"name\":\"1.20.1\",\"protocol\":763}}";
    let a = process_response("h".to_string(), 1, bare).unwrap();
    let b = process_response("h".to_string(), 1, object).unwrap();
    assert_eq!(a.description, "Hello");
    assert_eq!(b.description, "Hello");
}

#[test]
fn description_object_without_text_is_empty() {
    let doc = "{\"description\":{\"extra\":[]},\"players\":{\"online\":0,\"max\":10},\
\"version\":{\"name\":\"x\",\"protocol\":5}}";
    let status = process_response("h".to_string(), 1, doc).unwrap();
    assert_eq!(status.description, "");
}

#[test]
fn malformed_json_is_reported() {
    assert!(matches!(parse_response("not json at all"), Err(SlpError::MalformedJson)));
    assert!(matches!(parse_response("{\"unterminated\":"), Err(SlpError::MalformedJson)));
}

#[test]
fn missing_required_fields_are_schema_mismatches() {
    assert!(matches!(parse_response("{}"), Err(SlpError::SchemaMismatch)));
    let no_version = "{\"players\":{\"online\":0,\"max\":10}}";
    assert!(matches!(parse_response(no_version), Err(SlpError::SchemaMismatch)));
    let no_max = "{\"players\":{\"online\":0},\"version\":{\"name\":\"x\",\"protocol\":5}}";
    assert!(matches!(parse_response(no_max), Err(SlpError::SchemaMismatch)));
    let no_name = "{\"players\":{\"online\":0,\"max\":1},\"version\":{\"protocol\":5}}";
    assert!(matches!(parse_response(no_name), Err(SlpError::SchemaMismatch)));
}

#[test]
fn out_of_range_numbers_are_schema_mismatches() {
    let negative_online = "{\"players\":{\"online\":-3,\"max\":10},\
\"version\":{\"name\":\"x\",\"protocol\":5}}";
    assert!(matches!(parse_response(negative_online), Err(SlpError::SchemaMismatch)));
    let huge_online = "{\"players\":{\"online\":4294967296,\"max\":10},\
\"version\":{\"name\":\"x\",\"protocol\":5}}";
    assert!(matches!(parse_response(huge_online), Err(SlpError::SchemaMismatch)));
    let huge_protocol = "{\"players\":{\"online\":0,\"max\":10},\
\"version\":{\"name\":\"x\",\"protocol\":2147483648}}";
    assert!(matches!(parse_response(huge_protocol), Err(SlpError::SchemaMismatch)));
}

#[test]
fn favicon_with_data_uri_prefix_is_stripped() {
    assert_eq!(strip_favicon("data:image/png;base64,AAAA"), "AAAA");
}

#[test]
fn favicon_without_comma_is_unchanged() {
    assert_eq!(strip_favicon("AAAA"), "AAAA");
}

#[test]
fn favicon_is_stripped_through_the_pipeline() {
    let doc = "{\"description\":\"d\",\"players\":{\"online\":0,\"max\":10},\
\"version\":{\"name\":\"x\",\"protocol\":5},\"favicon\":\"data:image/png;base64,QUJD\"}";
    let status = process_response("h".to_string(), 1, doc).unwrap();
    assert_eq!(status.favicon, Some("QUJD".to_string()));
}

#[test]
fn favicon_null_is_absent() {
    let doc = "{\"description\":\"d\",\"players\":{\"online\":0,\"max\":10},\
\"version\":{\"name\":\"x\",\"protocol\":5},\"favicon\":null}";
    let status = process_response("h".to_string(), 1, doc).unwrap();
    assert_eq!(status.favicon, None);
}

#[test]
fn hidden_sample_with_players_online_becomes_sentinel() {
    let doc = "{\"description\":\"d\",\"players\":{\"online\":5,\"max\":20},\
\"version\":{\"name\":\"x\",\"protocol\":5}}";
    let status = process_response("h".to_string(), 1, doc).unwrap();
    assert_eq!(status.members, Some(vec!["Not Support".to_string()]));
}

#[test]
fn empty_sample_with_players_online_becomes_sentinel() {
    let doc = "{\"description\":\"d\",\"players\":{\"online\":5,\"max\":20,\"sample\":[]},\
\"version\":{\"name\":\"x\",\"protocol\":5}}";
    let status = process_response("h".to_string(), 1, doc).unwrap();
    assert_eq!(status.members, Some(vec!["Not Support".to_string()]));
}

#[test]
fn zero_online_never_gets_the_sentinel() {
    let doc = "{\"description\":\"d\",\"players\":{\"online\":0,\"max\":20},\
\"version\":{\"name\":\"x\",\"protocol\":5}}";
    let status = process_response("h".to_string(), 1, doc).unwrap();
    assert_eq!(status.members, None);
}

#[test]
fn supplied_sample_keeps_its_names_in_order() {
    let doc = "{\"description\":\"d\",\"players\":{\"online\":2,\"max\":20,\"sample\":\
[{\"name\":\"alice\",\"id\":\"1\"},{\"name\":\"bob\",\"id\":\"2\"}]},\
\"version\":{\"name\":\"x\",\"protocol\":5}}";
    let status = process_response("h".to_string(), 1, doc).unwrap();
    assert_eq!(status.members, Some(vec!["alice".to_string(), "bob".to_string()]));
}

#[test]
fn normalize_sample_direct_cases() {
    assert_eq!(normalize_sample(5, None), Some(vec!["Not Support".to_string()]));
    assert_eq!(normalize_sample(5, Some(vec![])), Some(vec!["Not Support".to_string()]));
    assert_eq!(normalize_sample(0, None), None);
    assert_eq!(normalize_sample(0, Some(vec![])), Some(vec![]));
    let sample = vec![Player { name: "carol".to_string(), id: "9".to_string() }];
    assert_eq!(normalize_sample(1, Some(sample)), Some(vec!["carol".to_string()]));
}

#[test]
fn end_to_end_status_fetch_from_frame() {
    // The server's framed response, as it would arrive on the wire.
    let mut inner = encode_varint(0x00);
    inner.extend(encode_varint(FULL.len() as i32));
    inner.extend_from_slice(FULL.as_bytes());
    let mut wire = encode_varint(inner.len() as i32);
    wire.extend(inner);

    let text = read_response(&wire).unwrap();
    let data = parse_response(&text).unwrap();
    let status = normalize_status("play.example.org".to_string(), 25565, data);

    assert_eq!(status.host, "play.example.org");
    assert_eq!(status.port, 25565);
    assert_eq!(status.description, "A Server");
    assert_eq!(status.online, 3);
    assert_eq!(status.max, 20);
    assert_eq!(status.members, Some(vec!["Not Support".to_string()]));
    assert_eq!(status.version, "1.20.1");
    assert_eq!(status.protocol, 763);
    assert_eq!(status.favicon, None);
}
