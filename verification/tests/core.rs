use endpoint_api::codec::encode_path;
use endpoint_api::marshal::build;
use endpoint_api::marshal::MarshalError;
use endpoint_api::metadata::AuthScheme;
use endpoint_api::metadata::EndpointMetadata;
use endpoint_api::metadata::History;
use endpoint_api::metadata::HistoryEntry;
use endpoint_api::metadata::Method;
use endpoint_api::percent::percent_decode;
use endpoint_api::percent::percent_encode;
use endpoint_api::query::decode_query;
use endpoint_api::query::encode_query;
use endpoint_api::resolver::resolve;
use endpoint_api::resolver::ResolutionError;
use endpoint_api::template::seg_lit;
use endpoint_api::template::seg_param;
use endpoint_api::template::PathTemplate;
use endpoint_api::template::Segment;
use endpoint_api::version::ProtocolVersion;
use endpoint_api::version::SupportedVersions;
use endpoint_api::version::VersionToken;

fn template(segments: Vec<Segment>) -> PathTemplate {
    PathTemplate { segments }
}

fn entry(token: VersionToken, t: PathTemplate) -> HistoryEntry {
    HistoryEntry { token, template: t }
}

fn supported(versions: Vec<(u8, u8)>) -> SupportedVersions {
    SupportedVersions::new(
        versions.into_iter().map(|(major, minor)| ProtocolVersion { major, minor }).collect(),
    )
}

fn rendered(t: &PathTemplate, values: Vec<&str>) -> String {
    let owned: Vec<String> = values.into_iter().map(|v| v.to_owned()).collect();
    String::from_utf8(encode_path(t, &owned).unwrap()).unwrap()
}

#[test]
fn percent_encodes_reserved_bytes() {
    let out = percent_encode(b"@alice:example.org");
    assert_eq!(out, b"%40alice%3Aexample.org".to_vec());
}

#[test]
fn percent_keeps_unreserved_bytes() {
    let out = percent_encode(b"Az09-._~");
    assert_eq!(out, b"Az09-._~".to_vec());
}

#[test]
fn percent_round_trips() {
    let input = b"a b+c/%&=\xff".to_vec();
    let encoded = percent_encode(&input);
    assert_eq!(percent_decode(&encoded, false), Some(input.clone()));
    assert_eq!(percent_decode(&encoded, true), Some(input));
}

#[test]
fn percent_decode_rejects_bad_escape() {
    assert_eq!(percent_decode(b"abc%zz", false), None);
    assert_eq!(percent_decode(b"abc%4", false), None);
}

#[test]
fn percent_decode_plus_only_in_form_mode() {
    assert_eq!(percent_decode(b"a+b", false), Some(b"a+b".to_vec()));
    assert_eq!(percent_decode(b"a+b", true), Some(b"a b".to_vec()));
}

#[test]
fn resolver_is_deterministic() {
    let history = History::new(vec![
        entry(
            VersionToken::Stable(ProtocolVersion { major: 1, minor: 0 }),
            template(vec![seg_lit("old")]),
        ),
        entry(
            VersionToken::Stable(ProtocolVersion { major: 1, minor: 1 }),
            template(vec![seg_lit("new")]),
        ),
    ]);
    let sup = supported(vec![(1, 1)]);
    let first = resolve(&history, false, &sup).map(|t| rendered(t, vec![]));
    let second = resolve(&history, false, &sup).map(|t| rendered(t, vec![]));
    assert_eq!(first, second);
    assert_eq!(first, Ok("/new".to_owned()));
}

#[test]
fn resolver_prefers_recent_entry() {
    let history = History::new(vec![
        entry(
            VersionToken::Stable(ProtocolVersion { major: 1, minor: 0 }),
            template(vec![seg_lit("a")]),
        ),
        entry(
            VersionToken::Stable(ProtocolVersion { major: 1, minor: 1 }),
            template(vec![seg_lit("a-prime")]),
        ),
    ]);
    let sup = supported(vec![(1, 1)]);
    let chosen = resolve(&history, false, &sup).map(|t| rendered(t, vec![]));
    assert_eq!(chosen, Ok("/a-prime".to_owned()));
}

#[test]
fn resolver_unstable_fallback() {
    let history = History::new(vec![entry(
        VersionToken::Unstable,
        template(vec![seg_lit("unstable-path")]),
    )]);
    let sup = supported(vec![(1, 1)]);
    let with_unstable = resolve(&history, true, &sup).map(|t| rendered(t, vec![]));
    assert_eq!(with_unstable, Ok("/unstable-path".to_owned()));
    let without = resolve(&history, false, &sup).map(|t| rendered(t, vec![]));
    assert_eq!(without, Err(ResolutionError::NoMatchingVersion));
}

#[test]
fn resolver_enforces_removal() {
    let history = History::new(vec![
        entry(
            VersionToken::Stable(ProtocolVersion { major: 1, minor: 0 }),
            template(vec![seg_lit("p")]),
        ),
        entry(
            VersionToken::Removed(ProtocolVersion { major: 1, minor: 2 }),
            template(vec![seg_lit("p")]),
        ),
    ]);
    let at_removed = resolve(&history, false, &supported(vec![(1, 2)]));
    assert!(matches!(at_removed, Err(ResolutionError::NoMatchingVersion)));
    let below_removed =
        resolve(&history, false, &supported(vec![(1, 1)])).map(|t| rendered(t, vec![]));
    assert_eq!(below_removed, Ok("/p".to_owned()));
}

#[test]
fn resolver_prefers_stable_over_unstable() {
    let history = History::new(vec![
        entry(VersionToken::Unstable, template(vec![seg_lit("unstable-path")])),
        entry(
            VersionToken::Stable(ProtocolVersion { major: 1, minor: 0 }),
            template(vec![seg_lit("stable-path")]),
        ),
    ]);
    let sup = supported(vec![(1, 0)]);
    let chosen = resolve(&history, true, &sup).map(|t| rendered(t, vec![]));
    assert_eq!(chosen, Ok("/stable-path".to_owned()));
}

#[test]
fn template_parse_reads_source_syntax() {
    let t = PathTemplate::parse("/profile/:user_id/:key_name").unwrap();
    assert_eq!(rendered(&t, vec!["@a:x", "displayname"]), "/profile/%40a%3Ax/displayname");
    assert!(PathTemplate::parse("").is_none());
    assert!(PathTemplate::parse("profile/:user_id").is_none());
}

#[test]
fn template_parse_agrees_with_declared_endpoint() {
    let t =
        PathTemplate::parse("/_matrix/client/v3/rooms/:room_id/state/:event_type/:state_key")
            .unwrap();
    let req = endpoint_api::state::get_state_events_for_key::Request::new(
        "!r:x".to_owned(),
        "m.type".to_owned(),
        "k".to_owned(),
    );
    let w = req
        .try_into_http_request("https://hs", Some("t"), false, &supported(vec![(1, 1)]))
        .unwrap();
    assert_eq!(rendered(&t, vec!["!r:x", "m.type", "k"]), w.path);
}

#[test]
fn encode_path_substitutes_and_keeps_literals() {
    let t = template(vec![
        seg_lit("v3"),
        seg_lit("profile"),
        seg_param("user_id"),
    ]);
    assert_eq!(rendered(&t, vec!["@alice:example.org"]), "/v3/profile/%40alice%3Aexample.org");
}

#[test]
fn encode_path_drops_extra_values() {
    let t = template(vec![seg_lit("x"), seg_param("a")]);
    let owned = vec!["one".to_owned(), "two".to_owned()];
    let bytes = encode_path(&t, &owned).unwrap();
    assert_eq!(String::from_utf8(bytes).unwrap(), "/x/one");
}

#[test]
fn encode_path_needs_enough_values() {
    let t = template(vec![seg_param("a"), seg_param("b")]);
    let owned = vec!["one".to_owned()];
    assert_eq!(encode_path(&t, &owned), None);
}

#[test]
fn decode_path_applies_shim_against_template() {
    let t = template(vec![seg_lit("x"), seg_param("a"), seg_param("b")]);
    let segs = vec!["%40u".to_owned(), "k".to_owned()];
    let vals = endpoint_api::codec::decode_path(&segs, &t).unwrap();
    assert_eq!(vals, vec!["@u".to_owned(), "k".to_owned()]);
    let one = vec!["%40u".to_owned()];
    let shimmed = endpoint_api::codec::decode_path(&one, &t).unwrap();
    assert_eq!(shimmed, vec!["@u".to_owned(), String::new()]);
    assert!(endpoint_api::codec::decode_path(&vec![], &t).is_none());
}

#[test]
fn percent_decode_accepts_lower_case_hex() {
    assert_eq!(percent_decode(b"%3a%3A", false), Some(b"::".to_vec()));
}

#[test]
fn query_omits_unset_fields() {
    let fields = vec![
        ("format".to_owned(), None),
        ("limit".to_owned(), Some("5".to_owned())),
    ];
    let encoded = String::from_utf8(encode_query(&fields)).unwrap();
    assert_eq!(encoded, "limit=5");
    assert!(!encoded.contains("format"));
}

#[test]
fn query_encodes_all_set_fields_in_order() {
    let fields = vec![
        ("a".to_owned(), Some("x y".to_owned())),
        ("b".to_owned(), Some("@v".to_owned())),
    ];
    let encoded = String::from_utf8(encode_query(&fields)).unwrap();
    assert_eq!(encoded, "a=x%20y&b=%40v");
}

#[test]
fn query_encoding_matches_form_serializer() {
    let fields = vec![("format".to_owned(), Some("event".to_owned()))];
    let ours = String::from_utf8(encode_query(&fields)).unwrap();
    let pairs = vec![("format".to_owned(), "event".to_owned())];
    let theirs = serde_html_form::to_string(&pairs).unwrap();
    assert_eq!(ours, theirs);
}

#[test]
fn query_decode_round_trips() {
    let fields = vec![
        ("a".to_owned(), Some("x y&z=".to_owned())),
        ("b".to_owned(), None),
        ("c".to_owned(), Some(String::new())),
    ];
    let encoded = encode_query(&fields);
    let pairs = decode_query(&encoded).unwrap();
    assert_eq!(
        pairs,
        vec![("a".to_owned(), "x y&z=".to_owned()), ("c".to_owned(), String::new())]
    );
}

#[test]
fn query_decode_reads_plus_and_skips_empty_parts() {
    let pairs = decode_query(b"a=b+c&&d").unwrap();
    assert_eq!(
        pairs,
        vec![("a".to_owned(), "b c".to_owned()), ("d".to_owned(), String::new())]
    );
}

#[test]
fn query_decode_rejects_bad_escape() {
    assert_eq!(decode_query(b"a=%zz"), None);
}

#[test]
fn query_decode_reads_multibyte_values() {
    let pairs = decode_query(b"e=%F0%9F%98%80").unwrap();
    assert_eq!(pairs, vec![("e".to_owned(), "\u{1F600}".to_owned())]);
}

#[test]
fn build_reports_missing_path_values() {
    let history = History::new(vec![entry(
        VersionToken::Stable(ProtocolVersion { major: 1, minor: 0 }),
        template(vec![seg_param("a"), seg_param("b")]),
    )]);
    let metadata = EndpointMetadata::new(Method::Get, false, AuthScheme::NoAuth, history);
    let r = build(
        &metadata,
        &vec!["one".to_owned()],
        &vec![],
        None,
        "https://hs.example.org",
        None,
        false,
        &supported(vec![(1, 0)]),
    );
    assert!(matches!(r, Err(MarshalError::EncodingError)));
}

#[test]
fn build_concrete_profile_scenario() {
    let history = History::new(vec![
        entry(
            VersionToken::Stable(ProtocolVersion { major: 1, minor: 0 }),
            template(vec![seg_lit("v3"), seg_lit("profile"), seg_param("user_id")]),
        ),
        entry(
            VersionToken::Stable(ProtocolVersion { major: 1, minor: 1 }),
            template(vec![seg_lit("v3"), seg_lit("profile"), seg_param("user_id")]),
        ),
    ]);
    let metadata = EndpointMetadata::new(Method::Get, false, AuthScheme::NoAuth, history);
    let w = build(
        &metadata,
        &vec!["@alice:example.org".to_owned()],
        &vec![],
        None,
        "https://hs.example.org",
        None,
        false,
        &supported(vec![(1, 1)]),
    )
    .unwrap();
    assert_eq!(w.method, Method::Get);
    assert_eq!(w.path, "/v3/profile/%40alice%3Aexample.org");
    assert_eq!(w.query, "");
    assert_eq!(w.url, "https://hs.example.org/v3/profile/%40alice%3Aexample.org");
    assert!(w.headers.is_empty());
    assert!(w.body.is_empty());
}

#[test]
fn build_trims_one_trailing_slash() {
    let history = History::new(vec![entry(
        VersionToken::Stable(ProtocolVersion { major: 1, minor: 0 }),
        template(vec![seg_lit("v3"), seg_lit("ping")]),
    )]);
    let metadata = EndpointMetadata::new(Method::Get, false, AuthScheme::NoAuth, history);
    let w = build(
        &metadata,
        &vec![],
        &vec![],
        None,
        "https://hs.example.org/",
        None,
        false,
        &supported(vec![(1, 0)]),
    )
    .unwrap();
    assert_eq!(w.url, "https://hs.example.org/v3/ping");
}

#[test]
fn build_sends_optional_token_when_present() {
    let history = History::new(vec![entry(
        VersionToken::Stable(ProtocolVersion { major: 1, minor: 0 }),
        template(vec![seg_lit("v3"), seg_lit("whoami")]),
    )]);
    let metadata =
        EndpointMetadata::new(Method::Get, false, AuthScheme::AccessTokenOptional, history);
    let with = build(
        &metadata,
        &vec![],
        &vec![],
        None,
        "https://hs",
        Some("tok"),
        false,
        &supported(vec![(1, 0)]),
    )
    .unwrap();
    assert_eq!(
        with.headers,
        vec![("Authorization".to_owned(), "Bearer tok".to_owned())]
    );
    let without = build(
        &metadata,
        &vec![],
        &vec![],
        None,
        "https://hs",
        None,
        false,
        &supported(vec![(1, 0)]),
    )
    .unwrap();
    assert!(without.headers.is_empty());
}
