use endpoint_api::json::json_object_fields;
use endpoint_api::json::JsonVal;
use endpoint_api::marshal::parse;
use endpoint_api::marshal::MarshalError;
use endpoint_api::marshal::ParseError;
use endpoint_api::metadata::Method;
use endpoint_api::preview_url::RoomPreviewUrlsEventContent;
use endpoint_api::profile;
use endpoint_api::room::report_room;
use endpoint_api::state::get_state_events_for_key;
use endpoint_api::unsigned::parse_json_int;
use endpoint_api::unsigned::MessageLikeUnsigned;
use endpoint_api::unsigned::StateUnsigned;
use endpoint_api::unsigned::StateUnsignedFromParts;
use endpoint_api::version::ProtocolVersion;
use endpoint_api::version::SupportedVersions;

fn supported(versions: Vec<(u8, u8)>) -> SupportedVersions {
    SupportedVersions::new(
        versions.into_iter().map(|(major, minor)| ProtocolVersion { major, minor }).collect(),
    )
}

fn body_value(bytes: &[u8]) -> serde_json::Value {
    serde_json::from_slice(bytes).unwrap()
}

#[test]
fn state_request_builds_full_wire_request() {
    let req = get_state_events_for_key::Request::new(
        "!room:example.org".to_owned(),
        "m.room.member".to_owned(),
        "@alice:example.org".to_owned(),
    );
    let w = req
        .try_into_http_request("https://hs.example.org", Some("token"), false, &supported(vec![(1, 1)]))
        .unwrap();
    assert_eq!(w.method, Method::Get);
    assert_eq!(
        w.path,
        "/_matrix/client/v3/rooms/%21room%3Aexample.org/state/m.room.member/%40alice%3Aexample.org"
    );
    assert_eq!(w.query, "");
    assert_eq!(
        w.url,
        "https://hs.example.org/_matrix/client/v3/rooms/%21room%3Aexample.org/state/m.room.member/%40alice%3Aexample.org"
    );
    assert_eq!(
        w.headers,
        vec![("Authorization".to_owned(), "Bearer token".to_owned())]
    );
    assert!(w.body.is_empty());
}

#[test]
fn state_request_picks_r0_for_older_support() {
    let req = get_state_events_for_key::Request::new(
        "!r:x".to_owned(),
        "m.type".to_owned(),
        String::new(),
    );
    let w = req
        .try_into_http_request("https://hs", Some("t"), false, &supported(vec![(1, 0)]))
        .unwrap();
    assert!(w.path.starts_with("/_matrix/client/r0/"));
}

#[test]
fn state_request_requires_credential() {
    let req = get_state_events_for_key::Request::new(
        "!r:x".to_owned(),
        "m.type".to_owned(),
        String::new(),
    );
    let r = req.try_into_http_request("https://hs", None, false, &supported(vec![(1, 1)]));
    assert!(matches!(r, Err(MarshalError::MissingCredential)));
}

#[test]
fn state_request_needs_matching_version() {
    let req = get_state_events_for_key::Request::new(
        "!r:x".to_owned(),
        "m.type".to_owned(),
        String::new(),
    );
    let r = req.try_into_http_request("https://hs", Some("t"), false, &supported(vec![]));
    assert!(matches!(r, Err(MarshalError::NoMatchingVersion)));
}

#[test]
fn state_query_carries_format_only_when_set() {
    let mut req = get_state_events_for_key::Request::new(
        "!r:x".to_owned(),
        "m.type".to_owned(),
        "k".to_owned(),
    );
    req.format = Some("event".to_owned());
    let w = req
        .try_into_http_request("https://hs", Some("t"), false, &supported(vec![(1, 1)]))
        .unwrap();
    assert_eq!(w.query, "format=event");
    assert!(w.url.ends_with("/k?format=event"));
}

#[test]
fn state_round_trip_recovers_request() {
    let mut req = get_state_events_for_key::Request::new(
        "!room:example.org".to_owned(),
        "m.room.member".to_owned(),
        "@alice:example.org".to_owned(),
    );
    req.format = Some("event".to_owned());
    let w = req
        .try_into_http_request("https://hs", Some("t"), false, &supported(vec![(1, 1)]))
        .unwrap();
    let parts: Vec<&str> = w.path.split('/').collect();
    assert_eq!(parts.len(), 9);
    let segments: Vec<String> =
        vec![parts[5].to_owned(), parts[7].to_owned(), parts[8].to_owned()];
    let back =
        get_state_events_for_key::Request::try_from_http_request(&segments, &w.query, true)
            .unwrap();
    assert_eq!(back.room_id, "!room:example.org");
    assert_eq!(back.event_type, "m.room.member");
    assert_eq!(back.state_key, "@alice:example.org");
    assert_eq!(back.format, Some("event".to_owned()));
}

#[test]
fn state_shim_defaults_missing_state_key() {
    let segments = vec!["room1".to_owned(), "m.type".to_owned()];
    let back = get_state_events_for_key::Request::try_from_http_request(&segments, "", true)
        .unwrap();
    assert_eq!(back.room_id, "room1");
    assert_eq!(back.event_type, "m.type");
    assert_eq!(back.state_key, "");
    assert_eq!(back.format, None);
}

#[test]
fn state_rejects_one_segment() {
    let segments = vec!["room1".to_owned()];
    let r = get_state_events_for_key::Request::try_from_http_request(&segments, "", true);
    assert!(matches!(r, Err(ParseError::MalformedPath)));
}

#[test]
fn state_incoming_requires_credential() {
    let segments = vec!["room1".to_owned(), "m.type".to_owned(), "k".to_owned()];
    let r = get_state_events_for_key::Request::try_from_http_request(&segments, "", false);
    assert!(matches!(r, Err(ParseError::AuthenticationRequired)));
}

#[test]
fn state_incoming_rejects_bad_query() {
    let segments = vec!["room1".to_owned(), "m.type".to_owned(), "k".to_owned()];
    let r = get_state_events_for_key::Request::try_from_http_request(&segments, "format=%zz", true);
    assert!(matches!(r, Err(ParseError::QueryDecodingError)));
}

#[test]
fn state_incoming_decodes_segments() {
    let segments = vec![
        "%21room%3Aexample.org".to_owned(),
        "m.room.member".to_owned(),
        "%40alice%3Aexample.org".to_owned(),
    ];
    let back = get_state_events_for_key::Request::try_from_http_request(&segments, "", true)
        .unwrap();
    assert_eq!(back.room_id, "!room:example.org");
    assert_eq!(back.state_key, "@alice:example.org");
}

#[test]
fn state_response_keeps_values() {
    let r = get_state_events_for_key::Response::new(
        JsonVal::Str("c".to_owned()),
        JsonVal::Raw("{}".to_owned()),
    );
    assert!(matches!(r.content, Some(JsonVal::Str(s)) if s == "c"));
    assert!(matches!(r.event, Some(JsonVal::Raw(s)) if s == "{}"));
}

#[test]
fn report_room_sends_reason_body() {
    let req = report_room::Request::new("!r:x".to_owned(), Some("spam".to_owned()));
    let w = req
        .try_into_http_request("https://hs", Some("tok"), false, &supported(vec![(1, 0)]))
        .unwrap();
    assert_eq!(w.method, Method::Post);
    assert_eq!(w.path, "/_matrix/client/v3/rooms/%21r%3Ax/report");
    let expected = {
        let mut m = serde_json::Map::new();
        m.insert("reason".to_owned(), serde_json::Value::String("spam".to_owned()));
        serde_json::Value::Object(m)
    };
    assert_eq!(body_value(&w.body), expected);
    assert_eq!(
        w.headers,
        vec![
            ("Content-Type".to_owned(), "application/json".to_owned()),
            ("Authorization".to_owned(), "Bearer tok".to_owned()),
        ]
    );
}

#[test]
fn report_room_without_reason_sends_empty_object() {
    let req = report_room::Request::new("!r:x".to_owned(), None);
    let w = req
        .try_into_http_request("https://hs", Some("tok"), false, &supported(vec![(1, 0)]))
        .unwrap();
    assert_eq!(w.body, b"{}".to_vec());
}

#[test]
fn report_room_requires_credential() {
    let req = report_room::Request::new("!r:x".to_owned(), None);
    let r = req.try_into_http_request("https://hs", None, false, &supported(vec![(1, 0)]));
    assert!(matches!(r, Err(MarshalError::MissingCredential)));
}

#[test]
fn report_room_unstable_shape_on_request() {
    let req = report_room::Request::new("!r:x".to_owned(), None);
    let w = req
        .try_into_http_request("https://hs", Some("t"), true, &supported(vec![]))
        .unwrap();
    assert_eq!(w.path, "/_matrix/client/unstable/org.matrix.msc4151/rooms/%21r%3Ax/report");
}

#[test]
fn profile_news_keep_fields() {
    let r = profile::get_profile::Request::new("@a:x".to_owned());
    assert_eq!(r.user_id, "@a:x");
    let resp = profile::get_profile::Response::new(
        Some("mxc://x/y".to_owned()),
        Some("Alice".to_owned()),
    );
    assert_eq!(resp.avatar_url, Some("mxc://x/y".to_owned()));
    assert_eq!(resp.displayname, Some("Alice".to_owned()));
    assert_eq!(resp.tz, None);

    let r = profile::get_profile_key::Request::new("@a:x".to_owned(), "displayname".to_owned());
    assert_eq!(r.key, "displayname");
    let resp = profile::get_profile_key::Response::new(vec![(
        "displayname".to_owned(),
        JsonVal::Str("Alice".to_owned()),
    )]);
    assert_eq!(resp.value.len(), 1);

    let r = profile::delete_profile_key::Request::new(
        "@a:x".to_owned(),
        "displayname".to_owned(),
        vec![],
    );
    assert_eq!(r.user_id, "@a:x");
    let _ = profile::delete_profile_key::Response::new();

    let r = profile::get_timezone_key::Request::new("@a:x".to_owned());
    assert_eq!(r.user_id, "@a:x");
    let resp = profile::get_timezone_key::Response::new(Some("Europe/Berlin".to_owned()));
    assert_eq!(resp.tz, Some("Europe/Berlin".to_owned()));

    let r = profile::set_timezone_key::Request::new("@a:x".to_owned(), None);
    assert_eq!(r.tz, None);
    let _ = profile::set_timezone_key::Response::new();

    let r = profile::delete_timezone_key::Request::new("@a:x".to_owned());
    assert_eq!(r.user_id, "@a:x");
    let _ = profile::delete_timezone_key::Response::new();

    let _ = report_room::Response::new();
}

#[test]
fn delete_profile_key_incoming_decodes_body() {
    let segments = vec!["%40a%3Ax".to_owned(), "displayname".to_owned()];
    let body = b"{\"displayname\":\"Alice\"}";
    let req =
        profile::delete_profile_key::Request::try_from_http_request(&segments, "", true, body)
            .unwrap();
    assert_eq!(req.user_id, "@a:x");
    assert_eq!(req.key, "displayname");
    assert_eq!(req.kv_pair.len(), 1);
    assert!(matches!(&req.kv_pair[0], (k, JsonVal::Str(v)) if k == "displayname" && v == "Alice"));
}

#[test]
fn delete_profile_key_incoming_rejects_bad_body() {
    let segments = vec!["%40a%3Ax".to_owned(), "displayname".to_owned()];
    let r = profile::delete_profile_key::Request::try_from_http_request(
        &segments,
        "",
        true,
        b"not json",
    );
    assert!(matches!(r, Err(ParseError::BodyDecodingError)));
    let empty = profile::delete_profile_key::Request::try_from_http_request(
        &segments,
        "",
        true,
        b"",
    );
    assert!(matches!(empty, Err(ParseError::BodyDecodingError)));
}

#[test]
fn profile_metadata_resolves_unstable_and_stable() {
    let m = profile::get_profile::metadata();
    let w = endpoint_api::marshal::build(
        &m,
        &vec!["@alice:example.org".to_owned()],
        &vec![],
        None,
        "https://hs",
        None,
        false,
        &supported(vec![(1, 1)]),
    )
    .unwrap();
    assert_eq!(w.path, "/_matrix/client/v3/profile/%40alice%3Aexample.org");
    let unstable = endpoint_api::marshal::build(
        &m,
        &vec!["@alice:example.org".to_owned()],
        &vec![],
        None,
        "https://hs",
        None,
        true,
        &supported(vec![]),
    )
    .unwrap();
    assert_eq!(
        unstable.path,
        "/_matrix/client/unstable/uk.tcpip.msc4133/profile/%40alice%3Aexample.org"
    );
}

#[test]
fn timezone_metadata_requires_token_incoming() {
    let m = profile::delete_timezone_key::metadata();
    let segments = vec!["@a:x".to_owned()];
    let r = parse(&m, &segments, "", false);
    assert!(matches!(r, Err(ParseError::AuthenticationRequired)));
    let ok = parse(&m, &segments, "", true).unwrap();
    assert_eq!(ok.path_values, vec!["@a:x".to_owned()]);
    assert!(ok.query_pairs.is_empty());
}

#[test]
fn json_fields_model_plain_and_raw_values() {
    let fields =
        json_object_fields(b"{\"a\":true,\"n\":5,\"o\":{\"x\":1},\"s\":\"v\",\"z\":null}")
            .unwrap();
    assert_eq!(fields.len(), 5);
    assert!(matches!(&fields[0], (k, JsonVal::Bool(true)) if k == "a"));
    assert!(matches!(&fields[1], (k, JsonVal::Raw(s)) if k == "n" && s == "5"));
    assert!(matches!(&fields[2], (k, JsonVal::Raw(s)) if k == "o" && s == "{\"x\":1}"));
    assert!(matches!(&fields[3], (k, JsonVal::Str(s)) if k == "s" && s == "v"));
    assert!(matches!(&fields[4], (k, JsonVal::Null) if k == "z"));
    assert!(json_object_fields(b"not json").is_none());
    assert!(json_object_fields(b"[1,2]").is_none());
}

#[test]
fn parse_json_int_reads_and_bounds() {
    assert_eq!(parse_json_int("1234"), Some(1234));
    assert_eq!(parse_json_int("-5"), Some(-5));
    assert_eq!(parse_json_int("0"), Some(0));
    assert_eq!(parse_json_int("9007199254740991"), Some(9007199254740991));
    assert_eq!(parse_json_int("9007199254740992"), None);
    assert_eq!(parse_json_int("12.5"), None);
    assert_eq!(parse_json_int(""), None);
    assert_eq!(parse_json_int("-"), None);
    assert_eq!(parse_json_int("1e3"), None);
}

#[test]
fn message_unsigned_emptiness() {
    let u = MessageLikeUnsigned::new();
    assert!(u.is_empty());
    let mut u2 = MessageLikeUnsigned::new();
    u2.age = Some(12);
    assert!(!u2.is_empty());
}

#[test]
fn state_unsigned_from_parts_reads_fields() {
    let body = b"{\"age\":1234,\"transaction_id\":\"txn1\",\"prev_content\":{\"disabled\":true},\"m.relations\":{\"m.thread\":{}}}";
    let u = StateUnsigned::<RoomPreviewUrlsEventContent>::from_parts(
        "org.matrix.room.preview_urls",
        body,
    )
    .unwrap();
    assert_eq!(u.age, Some(1234));
    assert_eq!(u.transaction_id, Some("txn1".to_owned()));
    assert_eq!(u.prev_content, Some(RoomPreviewUrlsEventContent { disabled: true }));
    assert_eq!(u.relations.len(), 1);
    assert!(!u.is_empty());
}

#[test]
fn state_unsigned_from_parts_defaults() {
    let u = StateUnsigned::<RoomPreviewUrlsEventContent>::from_parts(
        "org.matrix.room.preview_urls",
        b"{}",
    )
    .unwrap();
    assert_eq!(u.age, None);
    assert_eq!(u.transaction_id, None);
    assert_eq!(u.prev_content, None);
    assert!(u.relations.is_empty());
    assert!(u.is_empty());
}

#[test]
fn state_unsigned_from_parts_rejects_bad_shapes() {
    type U = StateUnsigned<RoomPreviewUrlsEventContent>;
    assert!(U::from_parts("t", b"not json").is_none());
    assert!(U::from_parts("t", b"{\"age\":\"old\"}").is_none());
    assert!(U::from_parts("t", b"{\"age\":12.5}").is_none());
    assert!(U::from_parts("t", b"{\"age\":9007199254740992}").is_none());
    assert!(U::from_parts("t", b"{\"transaction_id\":5}").is_none());
    assert!(U::from_parts("t", b"{\"prev_content\":\"x\"}").is_none());
    assert!(U::from_parts("t", b"{\"prev_content\":{\"disabled\":\"yes\"}}").is_none());
    assert!(U::from_parts("t", b"{\"m.relations\":5}").is_none());
}

#[test]
fn state_unsigned_trait_delegates() {
    let u = <StateUnsigned<RoomPreviewUrlsEventContent> as StateUnsignedFromParts>::_from_parts(
        "org.matrix.room.preview_urls",
        b"{\"age\":-7}",
    )
    .unwrap();
    assert_eq!(u.age, Some(-7));
}

#[test]
fn preview_urls_content_defaults_to_enabled() {
    let c = RoomPreviewUrlsEventContent::new(true);
    assert!(c.disabled);
    let u = StateUnsigned::<RoomPreviewUrlsEventContent>::from_parts(
        "org.matrix.room.preview_urls",
        b"{\"prev_content\":{}}",
    )
    .unwrap();
    assert_eq!(u.prev_content, Some(RoomPreviewUrlsEventContent { disabled: false }));
}
