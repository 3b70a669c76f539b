use mcpg_plugin_backend_http::call::BackendRequest;
use mcpg_plugin_backend_http::error::BackendError;
use mcpg_plugin_backend_http::json::{field, parse_json, Json};
use mcpg_plugin_backend_http::plugin::{HttpBackendPlugin, PluginClass};
use mcpg_plugin_backend_http::registration::{check_spec, draft_profile, read_spec, secret_refs};
use mcpg_plugin_backend_http::types::{
    default_expected_status_codes, default_max_response_bytes, default_method, default_timeout_ms,
    HttpBackendMethod, HttpBackendSpec, HttpBackendSpecFields, HttpCallMode, HttpRequestProfile,
};

type Plugin = HttpBackendPlugin<&'static str, u32>;

fn text_field(doc: &Json, name: &str) -> Option<String> {
    match field(doc, name) {
        Some(Json::Text(text)) => Some(text.clone()),
        None => None,
        other => panic!("{name}: {other:?}"),
    }
}

fn number_field(doc: &Json, name: &str) -> Option<u64> {
    match field(doc, name) {
        Some(Json::Unsigned(n)) => Some(*n),
        None => None,
        other => panic!("{name}: {other:?}"),
    }
}

fn flag_field(doc: &Json, name: &str) -> Option<bool> {
    match field(doc, name) {
        Some(Json::Bool(flag)) => Some(*flag),
        None => None,
        other => panic!("{name}: {other:?}"),
    }
}

fn fields_of(doc: &Json) -> HttpBackendSpecFields {
    HttpBackendSpecFields {
        url: text_field(doc, "url").expect("url"),
        method: text_field(doc, "method")
            .map(|name| HttpBackendMethod::from_name(&name).expect("verb")),
        headers: match field(doc, "headers") {
            Some(Json::Fields(entries)) => Some(
                entries
                    .iter()
                    .map(|(name, value)| match value {
                        Json::Text(text) => (name.clone(), text.clone()),
                        other => panic!("{other:?}"),
                    })
                    .collect(),
            ),
            _ => None,
        },
        expected_status_codes: match field(doc, "expected_status_codes") {
            Some(Json::Items(items)) => Some(
                items
                    .iter()
                    .map(|item| match item {
                        Json::Unsigned(n) => *n as u16,
                        other => panic!("{other:?}"),
                    })
                    .collect(),
            ),
            _ => None,
        },
        require_json_response: flag_field(doc, "require_json_response"),
        max_response_bytes: number_field(doc, "max_response_bytes").map(|n| n as usize),
        timeout_ms: number_field(doc, "timeout_ms"),
        allow_private_backends: flag_field(doc, "allow_private_backends"),
    }
}

fn register(plugin: &mut Plugin, name: &str, spec: &str) -> Result<(), BackendError> {
    let doc = parse_json(spec.as_bytes()).expect("document");
    let parsed = read_spec(Ok(fields_of(&doc)))?;
    let draft = draft_profile(&parsed, &doc)?;
    plugin.register_profile(name, draft, Ok(0))
}

fn refusal(spec: &str) -> BackendError {
    register(&mut Plugin::new(), "test", spec).expect_err("refused")
}

fn message(error: BackendError) -> String {
    match error {
        BackendError::InvalidSpec { message } => message,
        other => panic!("{other:?}"),
    }
}

fn request(payload: &[u8]) -> BackendRequest {
    BackendRequest {
        payload: payload.to_vec(),
        headers: vec![],
        request_id: "rq-1".to_owned(),
        session_id: None,
        identity: None,
        idempotency: None,
    }
}

#[test]
fn binding_plugin_kind_is_http() {
    let plugin = Plugin::new();
    assert_eq!(plugin.kind(), "http");
}

#[test]
fn manifest_advertises_first_party_id() {
    let plugin = Plugin::new();
    assert_eq!(plugin.manifest().id, "dev.mcpg.backend.http");
}

#[test]
fn manifest_names_the_binding() {
    let plugin = Plugin::default();
    assert_eq!(plugin.manifest().name, "HTTP Binding");
    assert_eq!(plugin.manifest().class, PluginClass::Backend);
}

#[test]
fn register_profile_accepts_minimal_post_spec() {
    let mut plugin = Plugin::new();
    let spec = r#"{ "url": "https://api.example.com/v1/foo", "method": "post" }"#;
    register(&mut plugin, "test", spec).expect("register");
    let entry = plugin.lookup("test");
    assert!(entry.is_some());
    let profile = &entry.unwrap().profile;
    assert_eq!(profile.url, "https://api.example.com/v1/foo");
    assert_eq!(profile.method, HttpBackendMethod::Post);
}

#[test]
fn register_profile_rejects_empty_url() {
    let err = refusal(r#"{ "url": "" }"#);
    assert!(matches!(err, BackendError::InvalidSpec { .. }));
}

#[test]
fn register_profile_rejects_non_http_scheme() {
    let err = refusal(r#"{ "url": "ftp://example.com/" }"#);
    assert!(matches!(err, BackendError::InvalidSpec { .. }));
}

#[test]
fn register_profile_rejects_invalid_status_code() {
    let err = refusal(r#"{ "url": "https://example.com/", "expected_status_codes": [200, 999] }"#);
    assert!(matches!(err, BackendError::InvalidSpec { .. }));
}

#[test]
fn register_profile_rejects_empty_expected_status_codes() {
    let err = refusal(r#"{ "url": "https://example.com/", "expected_status_codes": [] }"#);
    assert!(matches!(err, BackendError::InvalidSpec { .. }));
}

#[test]
fn register_profile_rejects_crlf_in_header_value() {
    let err = refusal(
        "{ \"url\": \"https://example.com/\", \
         \"headers\": { \"X-Inject\": \"value\\r\\nX-Smuggled: 1\" } }",
    );
    assert!(matches!(err, BackendError::InvalidSpec { .. }));
}

#[test]
fn register_profile_materializes_canonical_defaults() {
    let mut plugin = Plugin::new();
    let spec = r#"{ "url": "https://api.example.com/v1/foo" }"#;
    register(&mut plugin, "test", spec).expect("register");
    let profile = &plugin.lookup("test").expect("profile").profile;
    assert_eq!(profile.method, HttpBackendMethod::Post);
    assert_eq!(profile.timeout_ms, 2000);
    assert_eq!(profile.max_response_bytes, 4096);
    assert_eq!(profile.expected_status_codes, vec![200]);
    assert!(!profile.require_json_response);
}

#[test]
fn spec_deserialize_defaults_match_gateway_typed_path() {
    let doc = parse_json(br#"{ "url": "https://x/" }"#).expect("parse");
    let parsed = HttpBackendSpec::from_fields(fields_of(&doc));
    assert_eq!(parsed.method, HttpBackendMethod::Post);
    assert_eq!(parsed.timeout_ms, 2000);
    assert_eq!(parsed.max_response_bytes, 4096);
    assert_eq!(parsed.expected_status_codes, vec![200]);
    assert!(!parsed.require_json_response);
    assert!(parsed.headers.is_empty());
    assert!(!parsed.allow_private_backends);
}

#[test]
fn execute_unknown_profile_returns_profile_not_found() {
    let plugin = Plugin::new();
    let err = plugin
        .prepare_call("missing", &request(b""))
        .err()
        .expect("missing");
    assert!(matches!(err, BackendError::ProfileNotFound { .. }));
    assert_eq!(
        err,
        BackendError::ProfileNotFound { backend_name: "missing".to_owned() }
    );
}

#[test]
fn execute_rejects_non_json_payload() {
    let mut plugin = Plugin::new();
    register(&mut plugin, "test", r#"{ "url": "https://example.com/" }"#).expect("register");
    let err = plugin
        .prepare_call("test", &request(b"not json"))
        .err()
        .expect("invalid json");
    assert!(matches!(err, BackendError::InvalidSpec { .. }));
    assert_eq!(
        message(err),
        "HTTP plugin payload is not valid JSON: expected ident at line 1 column 2"
    );
}

#[test]
fn defaults_stand_alone() {
    assert_eq!(default_method(), HttpBackendMethod::Post);
    assert_eq!(default_expected_status_codes(), vec![200]);
    assert_eq!(default_max_response_bytes(), 4096);
    assert_eq!(default_timeout_ms(), 2000);
}

#[test]
fn given_fields_win_over_defaults() {
    let spec = HttpBackendSpec::from_fields(HttpBackendSpecFields {
        url: "https://x/".to_owned(),
        method: Some(HttpBackendMethod::Get),
        headers: Some(vec![("A".to_owned(), "b".to_owned())]),
        expected_status_codes: Some(vec![201, 204]),
        require_json_response: Some(true),
        max_response_bytes: Some(1),
        timeout_ms: Some(5),
        allow_private_backends: Some(true),
    });
    let profile = HttpRequestProfile::from_spec(&spec).copy();
    assert_eq!(profile.url, "https://x/");
    assert_eq!(profile.method, HttpBackendMethod::Get);
    assert_eq!(profile.headers, vec![("A".to_owned(), "b".to_owned())]);
    assert_eq!(profile.expected_status_codes, vec![201, 204]);
    assert!(profile.require_json_response);
    assert_eq!(profile.max_response_bytes, 1);
    assert_eq!(profile.timeout_ms, 5);
    assert!(profile.allow_private_backends);
}

#[test]
fn headers_stand_in_the_order_of_names() {
    let doc = parse_json(br#"{ "url": "https://x/" }"#).unwrap();
    let mut fields = fields_of(&doc);
    let pair = |name: &str, value: &str| (name.to_owned(), value.to_owned());
    fields.headers = Some(vec![pair("b", "1"), pair("a", "2"), pair("b", "3")]);
    let spec = HttpBackendSpec::from_fields(fields);
    assert_eq!(spec.headers, vec![pair("a", "2"), pair("b", "3")]);
}

#[test]
fn registered_headers_stand_in_the_order_of_names() {
    let pair = |name: &str, value: &str| (name.to_owned(), value.to_owned());
    let spec = HttpBackendSpec {
        url: "https://example.com/".to_owned(),
        method: HttpBackendMethod::Post,
        headers: vec![pair("b", "1"), pair("a", "2"), pair("b", "3"), pair("B", "4")],
        expected_status_codes: vec![200],
        require_json_response: false,
        max_response_bytes: 4096,
        timeout_ms: 2000,
        allow_private_backends: false,
    };
    let ordered = vec![pair("B", "4"), pair("a", "2"), pair("b", "3")];
    let draft = draft_profile(&spec, &Json::Null).unwrap();
    assert_eq!(draft.profile().headers, ordered);
    let mut plugin = Plugin::new();
    plugin.register_profile("test", draft, Ok(0)).unwrap();
    assert_eq!(plugin.lookup("test").unwrap().profile.headers, ordered);
}

#[test]
fn empty_payload_and_empty_object_are_the_same_call() {
    let mut plugin = Plugin::new();
    register(&mut plugin, "test", r#"{"url": "http://example/x", "method": "get"}"#).unwrap();
    let bare = plugin.prepare_call("test", &request(b"")).unwrap();
    let object = plugin.prepare_call("test", &request(b"{}")).unwrap();
    assert_eq!(bare.arguments, Json::Fields(vec![]));
    assert_eq!(object.arguments, bare.arguments);
    assert_eq!(object.tool_name, bare.tool_name);
    assert_eq!(object.call_mode, bare.call_mode);
    assert_eq!(object.trace_headers, bare.trace_headers);
    assert_eq!(object.idempotency_key, bare.idempotency_key);
    for payload in [&b""[..], b"{}"] {
        assert_eq!(
            plugin.prepare_call("missing", &request(payload)).err(),
            Some(BackendError::ProfileNotFound { backend_name: "missing".to_owned() })
        );
    }
}

#[test]
fn verbs_are_named_in_any_case() {
    assert_eq!(HttpBackendMethod::from_name("gEt"), Some(HttpBackendMethod::Get));
    assert_eq!(HttpBackendMethod::from_name("POST"), Some(HttpBackendMethod::Post));
    assert_eq!(HttpBackendMethod::from_name("put"), None);
    assert_eq!(HttpBackendMethod::from_name(""), None);
    assert_eq!(HttpBackendMethod::from_name("get "), None);
}

#[test]
fn verb_decides_the_call_mode() {
    assert_eq!(HttpCallMode::for_method(HttpBackendMethod::Post), HttpCallMode::JsonBody);
    assert_eq!(HttpCallMode::for_method(HttpBackendMethod::Get), HttpCallMode::QueryString);
    assert_eq!(HttpCallMode::JsonBody.request_kind(), "json_body");
    assert_eq!(HttpCallMode::QueryString.request_kind(), "query_string");
}

#[test]
fn each_fault_has_its_message() {
    let cases = [
        (r#"{ "url": " \t　" }"#, "url must not be empty"),
        (
            r#"{ "url": "ftp://example.com/" }"#,
            "url must start with http:// or https://, got 'ftp://example.com/'",
        ),
        (
            r#"{ "url": "HTTP://example.com/" }"#,
            "url must start with http:// or https://, got 'HTTP://example.com/'",
        ),
        (r#"{ "url": "http://x/", "timeout_ms": 0 }"#, "timeout_ms must be greater than 0"),
        (
            r#"{ "url": "http://x/", "max_response_bytes": 0 }"#,
            "max_response_bytes must be greater than 0",
        ),
        (
            r#"{ "url": "http://x/", "expected_status_codes": [] }"#,
            "expected_status_codes must not be empty",
        ),
        (
            r#"{ "url": "http://x/", "expected_status_codes": [200, 999, 99] }"#,
            "expected_status_codes entries must be valid HTTP status codes (100-599), got 999",
        ),
        (
            r#"{ "url": "http://x/", "expected_status_codes": [99] }"#,
            "expected_status_codes entries must be valid HTTP status codes (100-599), got 99",
        ),
        (r#"{ "url": "http://x/", "headers": { " ": "v" } }"#, "headers keys must not be empty"),
        (
            r#"{ "url": "http://x/", "headers": { "a\nb": "v" } }"#,
            "headers keys must not contain CR or LF characters",
        ),
        (
            r#"{ "url": "http://x/", "headers": { "a": "v\r" } }"#,
            "headers values must not contain CR or LF characters",
        ),
    ];
    for (spec, want) in cases {
        assert_eq!(message(refusal(spec)), want, "{spec}");
    }
}

#[test]
fn faults_are_told_in_order() {
    let spec = r#"{ "url": "ftp://x/", "timeout_ms": 0, "expected_status_codes": [] }"#;
    assert_eq!(
        message(refusal(spec)),
        "url must start with http:// or https://, got 'ftp://x/'"
    );
    let spec = r#"{ "url": "http://x/", "timeout_ms": 0, "max_response_bytes": 0 }"#;
    assert_eq!(message(refusal(spec)), "timeout_ms must be greater than 0");
}

#[test]
fn edge_status_codes_are_accepted() {
    let doc = parse_json(br#"{ "url": "http://x", "expected_status_codes": [100, 599] }"#).unwrap();
    let spec = HttpBackendSpec::from_fields(fields_of(&doc));
    assert!(check_spec(&spec).is_ok());
}

#[test]
fn unreadable_spec_is_refused() {
    let err = read_spec(Err("missing field `url`".to_owned())).err().unwrap();
    assert_eq!(message(err), "HTTP binding spec: missing field `url`");
}

#[test]
fn runtime_refusal_changes_nothing() {
    let mut plugin = Plugin::new();
    register(&mut plugin, "a", r#"{ "url": "http://first/" }"#).unwrap();
    let doc = parse_json(br#"{ "url": "http://second/" }"#).unwrap();
    let spec = HttpBackendSpec::from_fields(fields_of(&doc));
    let draft = draft_profile(&spec, &doc).ok().unwrap();
    let err = plugin
        .register_profile("a", draft, Err("bad template".to_owned()))
        .unwrap_err();
    assert_eq!(message(err), "HTTP binding spec: bad template");
    assert_eq!(plugin.lookup("a").unwrap().profile.url, "http://first/");
}

#[test]
fn registering_again_replaces_and_leaves_the_others() {
    let mut plugin = Plugin::new();
    register(&mut plugin, "a", r#"{ "url": "http://a1/" }"#).unwrap();
    register(&mut plugin, "b", r#"{ "url": "http://b1/" }"#).unwrap();
    register(&mut plugin, "a", r#"{ "url": "http://a2/" }"#).unwrap();
    assert_eq!(plugin.lookup("a").unwrap().profile.url, "http://a2/");
    assert_eq!(plugin.lookup("b").unwrap().profile.url, "http://b1/");
    assert!(plugin.lookup("c").is_none());
}

#[test]
fn host_is_installed_once() {
    let mut plugin = Plugin::new();
    assert!(plugin.host_handle().is_none());
    assert!(plugin.set_host_handle("first"));
    assert!(!plugin.set_host_handle("second"));
    assert_eq!(plugin.host_handle(), Some(&"first"));
}

#[test]
fn draft_names_the_secrets() {
    let text = br#"{ "url": "http://x/", "__mcpg_secret_refs": ["vault://a", 1, "vault://b"] }"#;
    let doc = parse_json(text).unwrap();
    let spec = HttpBackendSpec::from_fields(fields_of(&doc));
    let draft = draft_profile(&spec, &doc).ok().unwrap();
    assert_eq!(draft.secret_refs(), &vec!["vault://a".to_owned(), "vault://b".to_owned()]);
    assert_eq!(draft.profile().url, "http://x/");
    assert_eq!(draft.into_profile().timeout_ms, 2000);
}

#[test]
fn secrets_need_a_list() {
    for text in [r#"{}"#, r#"[]"#, r#"{ "__mcpg_secret_refs": "vault://a" }"#] {
        assert!(secret_refs(&parse_json(text.as_bytes()).unwrap()).is_empty(), "{text}");
    }
}

#[test]
fn audit_metadata_names_the_transport() {
    let plugin = Plugin::new();
    assert_eq!(
        plugin.audit_metadata("any"),
        vec![("http.transport".to_owned(), Json::Text("plugin".to_owned()))]
    );
}
