use mcpg_plugin_backend_http::completion::{
    accepts_status, append_query, check_origin, collect_candidates, completion_arguments,
    completion_tool_name, conclude_completion, count_encoded, default_method,
    default_response_path, extract_candidates, forward_headers, plan_completion, read_origin,
    read_response_path, resolve_completion_url, CompletionPlan, CompletionReply, Evaluation,
    Evaluations, HeaderEvaluation, HttpCompletionConfig, HttpCompletionFields, Origin,
};
use mcpg_plugin_backend_http::error::BackendError;
use mcpg_plugin_backend_http::json::{field, parse_json, Json};
use mcpg_plugin_backend_http::path_bridge::ends_in_escape;
use mcpg_plugin_backend_http::plugin::HttpBackendPlugin;
use mcpg_plugin_backend_http::registration::draft_profile;
use mcpg_plugin_backend_http::types::{
    HttpBackendMethod, HttpBackendSpec, HttpBackendSpecFields,
};
use serde_json_path::JsonPath;
use url::Url;

const BASE: &str = "https://api.example.com/v1/complete";

fn text_field(doc: &Json, name: &str) -> Option<String> {
    match field(doc, name) {
        Some(Json::Text(text)) => Some(text.clone()),
        _ => None,
    }
}

fn config(spec: &str) -> HttpCompletionConfig {
    let doc = parse_json(spec.as_bytes()).unwrap();
    HttpCompletionConfig::from_fields(HttpCompletionFields {
        method: text_field(&doc, "method")
            .map(|raw| HttpBackendMethod::from_name(&raw).expect("method should parse")),
        path: text_field(&doc, "path").expect("path"),
        query_params: None,
        headers: None,
        response_path: text_field(&doc, "response_path"),
        body_template: text_field(&doc, "body_template"),
    })
}

fn pair(name: &str, value: &str) -> (String, String) {
    (name.to_owned(), value.to_owned())
}

fn value(text: &str) -> Evaluation {
    Evaluation::Value { text: text.to_owned() }
}

fn unreadable() -> Evaluation {
    Evaluation::Unreadable { error: "E".to_owned() }
}

fn unevaluated() -> Evaluation {
    Evaluation::Failed { error: "E".to_owned() }
}

fn header(text: &str) -> HeaderEvaluation {
    HeaderEvaluation::Evaluated { evaluation: value(text) }
}

fn full_config(method: HttpBackendMethod) -> HttpCompletionConfig {
    HttpCompletionConfig {
        method,
        path: "p".to_owned(),
        query_params: vec![pair("a", "t"), pair("b", "t")],
        headers: vec![pair("H", "t")],
        response_path: "$.values".to_owned(),
        body_template: Some("t".to_owned()),
    }
}

fn full_evaluations() -> Evaluations {
    Evaluations {
        path: value("/c"),
        query_params: vec![value("1 2"), value("&")],
        headers: vec![header("h")],
        body: Some(value("{\"q\": 1}")),
    }
}

fn plan(
    config: &HttpCompletionConfig,
    base: &str,
    evaluations: &Evaluations,
) -> Result<CompletionPlan, BackendError> {
    plan_completion(config, base, evaluations).expect("fits")
}

fn invalid(plan: Result<CompletionPlan, BackendError>) -> String {
    match plan.err() {
        Some(BackendError::InvalidSpec { message }) => message,
        other => panic!("{other:?}"),
    }
}

fn transport_message(values: Result<Vec<String>, BackendError>) -> String {
    match values {
        Err(BackendError::Transport { message }) => message,
        other => panic!("{other:?}"),
    }
}

#[test]
fn parse_config_minimal() {
    let cfg = config(r#"{ "path": "/foo" }"#);
    assert_eq!(cfg.path, "/foo");
    assert_eq!(cfg.method, HttpBackendMethod::Get);
    assert_eq!(cfg.response_path, "$");
}

#[test]
fn parse_config_post_body() {
    let cfg = config(
        r#"{
        "method": "POST",
        "path": "/bar",
        "body_template": "{\"q\": \"${arguments.prefix}\"}"
    }"#,
    );
    assert_eq!(cfg.method, HttpBackendMethod::Post);
    assert!(cfg.body_template.is_some());
}

#[test]
fn parse_config_method_is_case_insensitive() {
    for (raw, want) in [
        ("get", HttpBackendMethod::Get),
        ("GET", HttpBackendMethod::Get),
        ("Get", HttpBackendMethod::Get),
        ("post", HttpBackendMethod::Post),
        ("POST", HttpBackendMethod::Post),
        ("Post", HttpBackendMethod::Post),
    ] {
        let cfg = config(&format!(r#"{{ "method": "{raw}", "path": "/p" }}"#));
        assert_eq!(cfg.method, want, "method `{raw}`");
    }
}

#[test]
fn completion_url_allows_same_origin_paths() {
    let base = Url::parse("https://api.example.com/v1/complete").unwrap();
    for p in ["suggest", "/v1/suggest", "./suggest", "../other"] {
        let got = resolve_completion_url(&base, p)
            .unwrap_or_else(|e| panic!("path `{p}` should be allowed: {e:?}"));
        assert_eq!(got.host_str(), Some("api.example.com"), "path `{p}`");
        assert_eq!(got.scheme(), "https", "path `{p}`");
    }
}

#[test]
fn completion_url_rejects_offorigin_join() {
    let base = Url::parse("https://api.example.com/v1/complete").unwrap();
    for p in [
        "https://evil.example.net/x",
        "//169.254.169.254/latest/meta-data/",
        "http://api.example.com/v1/suggest",
        "https://api.example.com:8443/v1/x",
        "file:///etc/passwd",
    ] {
        let err = resolve_completion_url(&base, p)
            .expect_err(&format!("off-origin path `{p}` must be rejected"));
        assert!(matches!(err, BackendError::InvalidSpec { .. }), "path `{p}` -> {err:?}");
    }
}

#[test]
fn completion_defaults() {
    assert_eq!(default_method(), HttpBackendMethod::Get);
    assert_eq!(default_response_path(), "$");
    let cfg = HttpCompletionConfig::from_fields(HttpCompletionFields {
        method: None,
        path: "/p".to_owned(),
        query_params: Some(vec![pair("a", "b")]),
        headers: Some(vec![pair("c", "d")]),
        response_path: Some("$.x".to_owned()),
        body_template: None,
    });
    assert_eq!(cfg.query_params, vec![pair("a", "b")]);
    assert_eq!(cfg.headers, vec![pair("c", "d")]);
    assert_eq!(cfg.response_path, "$.x");
    assert_eq!(cfg.body_template, None);
}

#[test]
fn joined_address_is_the_url_crates() {
    let base = Url::parse(BASE).unwrap();
    let got = resolve_completion_url(&base, "../other?x=1#y").unwrap();
    assert_eq!(got.as_str(), "https://api.example.com/other?x=1#y");
    let explicit = resolve_completion_url(&base, "https://api.example.com:443/z").unwrap();
    assert_eq!(explicit.as_str(), "https://api.example.com/z");
}

#[test]
fn refusals_of_a_path_are_told() {
    let base = Url::parse(BASE).unwrap();
    assert_eq!(
        resolve_completion_url(&base, "//evil/x").err(),
        Some(BackendError::InvalidSpec {
            message: "completion path '//evil/x' resolved to a different origin (https://evil) \
                      than the binding base; cross-origin completion targets are refused \
                      (SSRF guard)"
                .to_owned()
        })
    );
    assert_eq!(
        resolve_completion_url(&base, "data:x").err(),
        Some(BackendError::InvalidSpec {
            message: "completion path 'data:x' resolved to a different origin (data://<none>) \
                      than the binding base; cross-origin completion targets are refused \
                      (SSRF guard)"
                .to_owned()
        })
    );
    assert_eq!(
        resolve_completion_url(&base, "https://").err(),
        Some(BackendError::InvalidSpec {
            message: "joining completion path 'https://' onto base URL: empty host".to_owned()
        })
    );
}

#[test]
fn origins_are_compared_whole() {
    let origin = |scheme: &str, host: Option<&str>, port: Option<u16>| Origin {
        scheme: scheme.to_owned(),
        host: host.map(str::to_owned),
        port,
    };
    let base = origin("https", Some("h"), Some(443));
    assert!(check_origin(&base, &origin("https", Some("h"), Some(443)), "p").is_ok());
    assert!(check_origin(&base, &origin("http", Some("h"), Some(443)), "p").is_err());
    assert!(check_origin(&base, &origin("https", Some("H"), Some(443)), "p").is_err());
    assert!(check_origin(&base, &origin("https", None, Some(443)), "p").is_err());
    assert!(check_origin(&base, &origin("https", Some("h"), Some(444)), "p").is_err());
    assert!(check_origin(&base, &origin("https", Some("h"), None), "p").is_err());
    let blank = origin("data", None, None);
    assert!(check_origin(&blank, &origin("data", None, None), "p").is_ok());
}

#[test]
fn origin_counts_the_known_port() {
    let origin = read_origin(&Url::parse("http://Example.com/p").unwrap());
    assert_eq!(origin.scheme, "http");
    assert_eq!(origin.host.as_deref(), Some("example.com"));
    assert_eq!(origin.port, Some(80));
    let origin = read_origin(&Url::parse("data:x").unwrap());
    assert_eq!(origin.host, None);
    assert_eq!(origin.port, None);
}

#[test]
fn query_is_appended_in_order() {
    let url = Url::parse("https://x/p?z=0#f").unwrap();
    let longer = append_query(url, &vec![pair("a b", "1&2"), pair("c", "\u{e9}")]).unwrap();
    assert_eq!(longer.as_str(), "https://x/p?z=0&a+b=1%262&c=%C3%A9#f");
    let same = append_query(Url::parse("https://x/p").unwrap(), &vec![]).unwrap();
    assert_eq!(same.as_str(), "https://x/p");
}

#[test]
fn templates_see_what_was_typed() {
    let arguments =
        completion_arguments("repo", "mc", &vec![pair("owner", "o"), pair("owner", "p")]);
    assert_eq!(field(&arguments, "prefix"), Some(&Json::Text("mc".to_owned())));
    assert_eq!(field(&arguments, "var_name"), Some(&Json::Text("repo".to_owned())));
    let context = field(&arguments, "context").unwrap();
    assert_eq!(field(context, "owner"), Some(&Json::Text("p".to_owned())));
    assert_eq!(completion_tool_name("orders", "repo"), "orders:completion:repo");
}

#[test]
fn plan_holds_the_request() {
    let plan = plan(&full_config(HttpBackendMethod::Post), BASE, &full_evaluations())
        .unwrap_or_else(|e| panic!("{e:?}"));
    assert_eq!(plan.method, HttpBackendMethod::Post);
    assert_eq!(plan.url.as_str(), "https://api.example.com/c?a=1+2&b=%26");
    assert_eq!(plan.headers, vec![pair("H", "h")]);
    assert_eq!(plan.body, Some(parse_json(b"{\"q\": 1}").unwrap()));
    assert_eq!(
        extract_candidates(&plan.response_path, br#"{"values": ["x", "y"]}"#),
        vec!["x", "y"]
    );
}

#[test]
fn get_plan_has_no_body() {
    let mut evaluations = full_evaluations();
    evaluations.body = None;
    let got = plan(&full_config(HttpBackendMethod::Get), BASE, &evaluations)
        .unwrap_or_else(|e| panic!("{e:?}"));
    assert_eq!(got.body, None);
    let mut config = full_config(HttpBackendMethod::Post);
    config.body_template = None;
    let got = plan(&config, BASE, &evaluations).unwrap_or_else(|e| panic!("{e:?}"));
    assert_eq!(got.body, None);
}

#[test]
fn protected_headers_do_not_go_out() {
    let headers: Vec<(String, String)> = [
        "Host", "CONNECTION", "content-length", "Forwarded", "Via", "X-Real-IP", "x-request-id",
        "X-Forwarded-For", "x-forwarded-", "Accept", "Content-Type", "X-Forwarded", "X-Var-Name",
    ]
    .iter()
    .map(|name| pair(name, "v"))
    .collect();
    assert_eq!(
        forward_headers(&headers, true),
        vec![pair("X-Forwarded", "v"), pair("X-Var-Name", "v")]
    );
    assert_eq!(
        forward_headers(&headers, false),
        vec![
            pair("Accept", "v"),
            pair("Content-Type", "v"),
            pair("X-Forwarded", "v"),
            pair("X-Var-Name", "v"),
        ]
    );
    let mut config = full_config(HttpBackendMethod::Post);
    config.headers = vec![pair("Host", "t"), pair("H", "t"), pair("accept", "t")];
    let mut evaluations = full_evaluations();
    evaluations.headers = vec![header("evil"), header("h"), header("text/html")];
    let got = plan(&config, BASE, &evaluations).unwrap_or_else(|e| panic!("{e:?}"));
    assert_eq!(got.headers, vec![pair("H", "h")]);
}

#[test]
fn only_a_post_renders_a_body() {
    assert_eq!(full_config(HttpBackendMethod::Post).body_to_render(), Some("t"));
    assert_eq!(full_config(HttpBackendMethod::Get).body_to_render(), None);
    let mut config = full_config(HttpBackendMethod::Post);
    config.body_template = None;
    assert_eq!(config.body_to_render(), None);
}

#[test]
fn each_setting_is_refused_by_name() {
    let post = full_config(HttpBackendMethod::Post);

    let mut config = full_config(HttpBackendMethod::Post);
    config.response_path = "values".to_owned();
    assert_eq!(
        invalid(plan(&config, BASE, &full_evaluations())),
        "variable_completions.config.response_path: at position 0, parser error"
    );

    let mut evaluations = full_evaluations();
    evaluations.path = unreadable();
    assert_eq!(
        invalid(plan(&post, BASE, &evaluations)),
        "variable_completions.config.path expression: E"
    );
    evaluations.path = unevaluated();
    assert_eq!(
        invalid(plan(&post, BASE, &evaluations)),
        "variable_completions.config.path evaluation: E"
    );
    evaluations.path = value("//evil/");
    assert!(invalid(plan(&post, BASE, &evaluations)).contains("different origin"));

    let mut evaluations = full_evaluations();
    evaluations.query_params[1] = unreadable();
    assert_eq!(
        invalid(plan(&post, BASE, &evaluations)),
        "variable_completions.config.query_params['b'] expression: E"
    );
    evaluations.query_params[0] = unevaluated();
    assert_eq!(
        invalid(plan(&post, BASE, &evaluations)),
        "variable_completions.config.query_params['a'] evaluation: E"
    );

    let mut evaluations = full_evaluations();
    evaluations.headers[0] = HeaderEvaluation::Evaluated { evaluation: unreadable() };
    assert_eq!(
        invalid(plan(&post, BASE, &evaluations)),
        "variable_completions.config.headers['H'] expression: E"
    );
    evaluations.headers[0] = HeaderEvaluation::Evaluated { evaluation: unevaluated() };
    assert_eq!(
        invalid(plan(&post, BASE, &evaluations)),
        "variable_completions.config.headers['H'] evaluation: E"
    );
    evaluations.headers[0] = HeaderEvaluation::Rejected { error: "E".to_owned() };
    assert_eq!(invalid(plan(&post, BASE, &evaluations)), "completion header 'H': E");

    let mut evaluations = full_evaluations();
    evaluations.body = Some(unreadable());
    assert_eq!(
        invalid(plan(&post, BASE, &evaluations)),
        "variable_completions.config.body_template expression: E"
    );
    evaluations.body = Some(unevaluated());
    assert_eq!(
        invalid(plan(&post, BASE, &evaluations)),
        "variable_completions.config.body_template evaluation: E"
    );
    evaluations.body = Some(value("nope"));
    assert_eq!(
        invalid(plan(&post, BASE, &evaluations)),
        "body_template did not render to valid JSON: expected ident at line 1 column 2"
    );
}

#[test]
fn unparseable_base_is_a_bad_configuration() {
    for base in ["https://", "http://"] {
        let got = plan(&full_config(HttpBackendMethod::Get), base, &full_evaluations());
        assert_eq!(
            got.err(),
            Some(BackendError::InvalidSpec {
                message: "HTTP binding base URL is not parseable: empty host".to_owned()
            })
        );
    }
}

#[test]
fn response_path_cut_inside_an_escape_is_refused() {
    for path in [
        "$[\"\\u".to_owned(),
        "$['\\uD".to_owned(),
        "$['\\uD83D\\u".to_owned(),
        "$['\\uD83D\\uD".to_owned(),
        "$['\\uD83D\\ud".to_owned(),
        "$['a', 'b\\u".to_owned(),
        "$[?@.a == '\\uD".to_owned(),
    ] {
        assert!(ends_in_escape(&path), "{path}");
        let told = JsonPath::parse(&format!("{path}\0")).unwrap_err().to_string();
        let mut config = full_config(HttpBackendMethod::Get);
        config.response_path = path;
        assert_eq!(
            invalid(plan(&config, BASE, &full_evaluations())),
            format!("variable_completions.config.response_path: {told}")
        );
    }
}

#[test]
fn response_path_that_is_none_is_refused_in_the_words_of_the_crate() {
    for path in [
        "values\\u", "values\\uD", "values\\ud", "\\u", "$\\u", "$.a\\u", "$.a\\uD", "$..\\ud",
        "$.values[0]\\u", "$['a']\\u", "$['\\\\u", "$[?@.a == '\\\\ud", "x['\\u", "$[\\u",
        "values", "$.", "$['a",
    ] {
        let told = JsonPath::parse(path).unwrap_err().to_string();
        assert_eq!(read_response_path(path).err(), Some(told.clone()), "{path}");
        let mut config = full_config(HttpBackendMethod::Get);
        config.response_path = path.to_owned();
        assert_eq!(
            invalid(plan(&config, BASE, &full_evaluations())),
            format!("variable_completions.config.response_path: {told}")
        );
    }
}

#[test]
fn whole_escapes_are_read() {
    for path in ["$['\\u0041']", "$['\\uD83D\\uDE00']", "$.u", "$['ud']", "$"] {
        assert!(!ends_in_escape(path), "{path}");
        assert!(read_response_path(path).is_ok(), "{path}");
    }
    for path in ["$['\\u0", "$['\\ud8", "$['\\uD8", "$['\\", "u", "", "\\"] {
        assert!(!ends_in_escape(path), "{path}");
        assert!(read_response_path(path).is_err(), "{path}");
    }
    let path = read_response_path("$['\\u0041']").unwrap();
    assert_eq!(extract_candidates(&path, br#"{"A": "x"}"#), vec!["x"]);
}

#[test]
fn encoded_bytes_are_counted() {
    let bytes: Vec<u8> = (0..=255).collect();
    for byte in bytes {
        let url = Url::parse("http://x/").unwrap();
        let before = url.as_str().len();
        let name = char::from(byte).to_string();
        let longer = append_query(url, &vec![pair(&name, "")]).unwrap();
        let encoded = count_encoded(name.as_bytes()) as usize;
        assert_eq!(longer.as_str().len(), before + 1 + encoded + 1, "{byte}");
    }
    assert_eq!(count_encoded(b"a b*-._&"), 10);
    assert_eq!(count_encoded(b""), 0);
}

#[test]
fn query_follows_a_lone_question_mark() {
    let url = Url::parse("http://x/?#f").unwrap();
    let longer = append_query(url, &vec![pair("a", "1"), pair("b", "2")]).unwrap();
    assert_eq!(longer.as_str(), "http://x/?a=1&b=2#f");
}

#[test]
fn configuration_stands_in_the_order_of_names() {
    let cfg = HttpCompletionConfig::from_fields(HttpCompletionFields {
        method: None,
        path: "/p".to_owned(),
        query_params: Some(vec![pair("b", "1"), pair("a", "2"), pair("b", "3")]),
        headers: Some(vec![pair("z", "1"), pair("Z", "2")]),
        response_path: None,
        body_template: None,
    });
    assert_eq!(cfg.query_params, vec![pair("a", "2"), pair("b", "3")]);
    assert_eq!(cfg.headers, vec![pair("Z", "2"), pair("z", "1")]);
}

#[test]
fn first_refusal_is_told() {
    let mut evaluations = full_evaluations();
    evaluations.path = unreadable();
    evaluations.headers[0] = HeaderEvaluation::Rejected { error: "E".to_owned() };
    let told = invalid(plan(&full_config(HttpBackendMethod::Post), "https://", &evaluations));
    assert_eq!(told, "variable_completions.config.path expression: E");
}

#[test]
fn default_path_offers_the_array() {
    let config = config(r#"{ "path": "/foo" }"#);
    let evaluations =
        Evaluations { path: value("/foo"), query_params: vec![], headers: vec![], body: None };
    let plan = plan(&config, BASE, &evaluations).unwrap_or_else(|e| panic!("{e:?}"));
    assert_eq!(extract_candidates(&plan.response_path, br#"["a", "b"]"#), vec!["a", "b"]);
}

#[test]
fn candidates_are_strings() {
    let path = JsonPath::parse("$.results[*].name").unwrap();
    let body = br#"{"results": [{"name": "a"}, {"name": 1}, {"name": ["b", 2, ["c"]]}, {}]}"#;
    assert_eq!(extract_candidates(&path, body), vec!["a", "b"]);
    let found = vec![
        Json::Text("x".to_owned()),
        Json::Null,
        Json::Items(vec![Json::Text("y".to_owned()), Json::Bool(true)]),
    ];
    assert_eq!(collect_candidates(&found), vec!["x", "y"]);
}

#[test]
fn unreadable_reply_offers_nothing() {
    let path = JsonPath::parse("$").unwrap();
    assert!(extract_candidates(&path, br#"["a", "#).is_empty());
    assert!(extract_candidates(&path, b"").is_empty());
    assert!(extract_candidates(&path, b"3").is_empty());
}

#[test]
fn statuses_of_the_200_class_are_read() {
    for (status, want) in [(199, false), (200, true), (299, true), (300, false), (404, false)] {
        assert_eq!(accepts_status(status), want, "{status}");
    }
}

#[test]
fn replies_are_concluded() {
    let path = JsonPath::parse("$").unwrap();
    let reply = CompletionReply::NoClient { error: "E".to_owned() };
    assert_eq!(
        transport_message(conclude_completion(&path, &reply)),
        "building HTTP completion client: E"
    );
    let reply = CompletionReply::NotSent { error: "E".to_owned() };
    assert_eq!(
        transport_message(conclude_completion(&path, &reply)),
        "HTTP completion request failed: E"
    );
    let reply = CompletionReply::Answered {
        status: 404,
        status_text: "404 Not Found".to_owned(),
        body: None,
    };
    assert_eq!(
        transport_message(conclude_completion(&path, &reply)),
        "HTTP completion endpoint returned non-success status 404 Not Found"
    );
    let reply = CompletionReply::Answered {
        status: 200,
        status_text: "200 OK".to_owned(),
        body: Some(Err("E".to_owned())),
    };
    assert_eq!(
        transport_message(conclude_completion(&path, &reply)),
        "HTTP completion body read failed: E"
    );
    let reply = CompletionReply::Answered {
        status: 200,
        status_text: "200 OK".to_owned(),
        body: Some(Ok(br#"["a"]"#.to_vec())),
    };
    assert_eq!(conclude_completion(&path, &reply), Ok(vec!["a".to_owned()]));
}

#[test]
fn completion_needs_a_configuration_and_a_profile() {
    let mut plugin = HttpBackendPlugin::<u8, u8>::new();
    assert_eq!(
        plugin.completion_profile("missing", Err("missing field `path`".to_owned())).err(),
        Some(BackendError::InvalidSpec {
            message: "variable_completions.config: missing field `path`".to_owned()
        })
    );
    assert_eq!(
        plugin.completion_profile("missing", Ok(config(r#"{ "path": "/p" }"#))).err(),
        Some(BackendError::ProfileNotFound { backend_name: "missing".to_owned() })
    );
    let spec = HttpBackendSpec::from_fields(HttpBackendSpecFields {
        url: BASE.to_owned(),
        method: None,
        headers: None,
        expected_status_codes: None,
        require_json_response: None,
        max_response_bytes: None,
        timeout_ms: None,
        allow_private_backends: None,
    });
    let draft = draft_profile(&spec, &Json::Null).ok().unwrap();
    plugin.register_profile("b", draft, Ok(9)).unwrap();
    let (entry, kept) =
        plugin.completion_profile("b", Ok(config(r#"{ "path": "/p" }"#))).ok().unwrap();
    assert_eq!(entry.runtime, 9);
    assert_eq!(entry.profile.url, BASE);
    assert_eq!(kept.path, "/p");
}
