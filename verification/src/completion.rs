//! Dynamic completion of resource-template variables: from the operator's
//! configuration to the request, and from the reply to the candidates.

use crate::error::{invalid_spec, transport, BackendError, BackendErrorView};
use crate::json::{
    append_strings, documents, field_of, from_value, law_list_of_strings_is_kept,
    law_object_holds_its_strings, parse_json, put, slice_text, strings_among, strings_fields,
    strings_json, text_json, to_value, Json, JsonView,
};
use crate::pairs::{
    collate, collated, lemma_filter_takes, names_ascend, pairs_view, taken_from,
};
use crate::path_bridge::{
    cuts_escape, ends_in_escape, finds_root, parse_path, parsed_path, path_error_text,
    path_matches, query_path,
};
use crate::serde_bridge::{json_of, parsed_json, values_view};
use crate::text::{
    eq_ignoring_case, lowered, lowered_begins_with, same_ignoring_case, stands_at, text_eq,
    text_of, texts,
};
use crate::types::{lemma_collated_settles, settles, HttpBackendMethod};
use crate::url_bridge::{
    append_pair, encoded_length, fragment_length, host_of, is_plain_byte, join_url, joined_url,
    pair_fits, parse_url, parsed_url, port_of, query_length, scheme_of, stem_length,
    url_error_text, url_host, url_port, url_scheme, url_with_pair,
};
use serde_json_path::JsonPath;
use url::Url;
use vstd::prelude::*;
use vstd::string::*;
use vstd::utf8::*;

verus! {

/// The completion endpoint of one variable. Query parameters and headers stand
/// in the order of their names.
#[derive(Debug)]
pub struct HttpCompletionConfig {
    /// GET sends `query_params`; POST sends `body_template` besides.
    pub method: HttpBackendMethod,
    /// Joined onto the address of the binding. A template.
    pub path: String,
    /// Names and templates of the query.
    pub query_params: Vec<(String, String)>,
    /// Names and templates of the headers. Protected ones do not go out.
    pub headers: Vec<(String, String)>,
    /// A JSONPath that finds the candidates in the reply.
    pub response_path: String,
    /// The template of a POST's body.
    pub body_template: Option<String>,
}

/// What an operator wrote: `path`, and each other field where it is given.
#[derive(Debug)]
pub struct HttpCompletionFields {
    pub method: Option<HttpBackendMethod>,
    pub path: String,
    pub query_params: Option<Vec<(String, String)>>,
    pub headers: Option<Vec<(String, String)>>,
    pub response_path: Option<String>,
    pub body_template: Option<String>,
}

/// The verb of an endpoint that names none.
pub fn default_method() -> (method: HttpBackendMethod)
    ensures
        method == HttpBackendMethod::Get,
{
    HttpBackendMethod::Get
}

/// The JSONPath of an endpoint that names none: the reply itself.
pub fn default_response_path() -> (path: String)
    ensures
        path@ == "$"@,
{
    "$".to_owned()
}

/// A configuration as contracts speak of it.
pub struct ConfigView {
    pub method: HttpBackendMethod,
    pub path: Seq<char>,
    pub query_params: Seq<(Seq<char>, Seq<char>)>,
    pub headers: Seq<(Seq<char>, Seq<char>)>,
    pub response_path: Seq<char>,
    pub body_template: Option<Seq<char>>,
}

impl View for HttpCompletionConfig {
    type V = ConfigView;

    open spec fn view(&self) -> ConfigView {
        ConfigView {
            method: self.method,
            path: self.path@,
            query_params: pairs_view(self.query_params@),
            headers: pairs_view(self.headers@),
            response_path: self.response_path@,
            body_template: text_of(self.body_template),
        }
    }
}

/// The configuration that an operator's fields make: a field that is not given
/// takes the default.
pub open spec fn completed_config(fields: HttpCompletionFields) -> ConfigView {
    ConfigView {
        method: match fields.method {
            Some(method) => method,
            None => HttpBackendMethod::Get,
        },
        path: fields.path@,
        query_params: match fields.query_params {
            Some(pairs) => collated(pairs_view(pairs@), pairs@.len()),
            None => Seq::empty(),
        },
        headers: match fields.headers {
            Some(pairs) => collated(pairs_view(pairs@), pairs@.len()),
            None => Seq::empty(),
        },
        response_path: match fields.response_path {
            Some(path) => path@,
            None => "$"@,
        },
        body_template: text_of(fields.body_template),
    }
}

/// The template of the body that a request sends: that of a POST.
pub open spec fn body_template_of(config: ConfigView) -> Option<Seq<char>> {
    match config.method {
        HttpBackendMethod::Get => None,
        HttpBackendMethod::Post => config.body_template,
    }
}

impl HttpCompletionConfig {
    /// Query parameters and headers stand in the order of their names, and none
    /// stands twice.
    pub open spec fn is_well_formed(self) -> bool {
        &&& names_ascend(pairs_view(self.query_params@))
        &&& names_ascend(pairs_view(self.headers@))
    }

    /// Completes an operator's fields with the defaults.
    pub fn from_fields(fields: HttpCompletionFields) -> (config: HttpCompletionConfig)
        ensures
            config.is_well_formed(),
            config@ == completed_config(fields),
    {
        let config: HttpCompletionConfig = HttpCompletionConfig {
            method: match fields.method {
                Some(method) => method,
                None => default_method(),
            },
            path: fields.path,
            query_params: match fields.query_params {
                Some(pairs) => collate(&pairs),
                None => Vec::new(),
            },
            headers: match fields.headers {
                Some(pairs) => collate(&pairs),
                None => Vec::new(),
            },
            response_path: match fields.response_path {
                Some(path) => path,
                None => default_response_path(),
            },
            body_template: fields.body_template,
        };
        assert(config@.query_params =~= completed_config(fields).query_params);
        assert(config@.headers =~= completed_config(fields).headers);
        config
    }

    /// The template of the body that the request sends; only a POST sends one.
    pub fn body_to_render(&self) -> (template: Option<&str>)
        ensures
            slice_text(template) == body_template_of(self@),
    {
        match self.method {
            HttpBackendMethod::Get => None,
            HttpBackendMethod::Post => match &self.body_template {
                Some(template) => Some(template.as_str()),
                None => None,
            },
        }
    }
}

/// What the templates of an endpoint see as `arguments`.
pub open spec fn completion_fields(
    variable_name: Seq<char>,
    prefix: Seq<char>,
    context: Seq<(Seq<char>, Seq<char>)>,
) -> Map<Seq<char>, JsonView> {
    Map::<Seq<char>, JsonView>::empty().insert("prefix"@, JsonView::Text(prefix)).insert(
        "var_name"@,
        JsonView::Text(variable_name),
    ).insert("context"@, JsonView::Fields(strings_fields(context, context.len())))
}

/// What the templates of an endpoint see as `arguments`: the text typed so
/// far, the variable, and the variables that are known already.
pub fn completion_arguments(
    variable_name: &str,
    prefix: &str,
    context: &Vec<(String, String)>,
) -> (arguments: Json)
    ensures
        arguments@ == JsonView::Fields(
            completion_fields(variable_name@, prefix@, pairs_view(context@)),
        ),
{
    let mut arguments: Vec<(String, Json)> = Vec::new();
    put(&mut arguments, "prefix", text_json(prefix));
    put(&mut arguments, "var_name", text_json(variable_name));
    put(&mut arguments, "context", strings_json(context));
    Json::Fields(arguments)
}

/// What the templates of an endpoint see as the tool's name.
pub fn completion_tool_name(backend_name: &str, variable_name: &str) -> (name: String)
    ensures
        name@ == backend_name@ + ":completion:"@ + variable_name@,
{
    let mut name: String = backend_name.to_owned();
    name.append(":completion:");
    name.append(variable_name);
    name
}

/// Who serves an address.
pub struct Origin {
    pub scheme: String,
    pub host: Option<String>,
    pub port: Option<u16>,
}

/// An origin as contracts speak of it.
pub struct OriginView {
    pub scheme: Seq<char>,
    pub host: Option<Seq<char>>,
    pub port: Option<u16>,
}

impl View for Origin {
    type V = OriginView;

    open spec fn view(&self) -> OriginView {
        OriginView { scheme: self.scheme@, host: text_of(self.host), port: self.port }
    }
}

/// The origin of an address: its scheme, host and port, where a scheme's own
/// port counts as given.
pub open spec fn origin_of(url: Url) -> OriginView {
    OriginView { scheme: url_scheme(url), host: url_host(url), port: url_port(url) }
}

/// Why a path that leads away from the origin of the binding is refused.
pub open spec fn foreign_origin(path: Seq<char>, target: OriginView) -> Seq<char> {
    "completion path '"@ + path + "' resolved to a different origin ("@ + target.scheme + "://"@
        + (match target.host {
        Some(host) => host,
        None => "<none>"@,
    })
        + ") than the binding base; cross-origin completion targets are refused (SSRF guard)"@
}

/// The address that a path leads to from a base; refused where it cannot be
/// joined, and where it changes the origin.
pub open spec fn completion_url(base: Url, path: Seq<char>) -> Result<Url, BackendErrorView> {
    match joined_url(base, path) {
        Err(message) => Err(
            BackendErrorView::InvalidSpec(
                "joining completion path '"@ + path + "' onto base URL: "@ + message,
            ),
        ),
        Ok(url) => if origin_of(url) == origin_of(base) {
            Ok(url)
        } else {
            Err(BackendErrorView::InvalidSpec(foreign_origin(path, origin_of(url))))
        },
    }
}

/// Reads the origin of an address.
pub fn read_origin(url: &Url) -> (origin: Origin)
    ensures
        origin@ == origin_of(*url),
{
    Origin { scheme: scheme_of(url), host: host_of(url), port: port_of(url) }
}

/// Whether two optional strings hold the same text.
fn same_text(a: &Option<String>, b: &Option<String>) -> (same: bool)
    ensures
        same == (text_of(*a) == text_of(*b)),
{
    match (a, b) {
        (Some(a), Some(b)) => text_eq(a.as_str(), b.as_str()),
        (None, None) => true,
        _ => false,
    }
}

/// Whether two optional ports are the same.
fn same_port(a: Option<u16>, b: Option<u16>) -> (same: bool)
    ensures
        same == (a == b),
{
    match (a, b) {
        (Some(a), Some(b)) => a == b,
        (None, None) => true,
        _ => false,
    }
}

/// Refuses a target whose scheme, host or port is not the base's.
pub fn check_origin(base: &Origin, target: &Origin, path: &str) -> (checked: Result<
    (),
    BackendError,
>)
    ensures
        if target@ == base@ {
            checked is Ok
        } else {
            checked matches Err(error) && error@ == BackendErrorView::InvalidSpec(
                foreign_origin(path@, target@),
            )
        },
{
    if text_eq(target.scheme.as_str(), base.scheme.as_str()) && same_text(
        &target.host,
        &base.host,
    ) && same_port(target.port, base.port) {
        return Ok(());
    }
    let mut message: String = "completion path '".to_owned();
    message.append(path);
    message.append("' resolved to a different origin (");
    message.append(target.scheme.as_str());
    message.append("://");
    match &target.host {
        Some(host) => message.append(host.as_str()),
        None => message.append("<none>"),
    }
    message.append(
        ") than the binding base; cross-origin completion targets are refused (SSRF guard)",
    );
    Err(BackendError::InvalidSpec { message })
}

/// Joins a path onto the address of the binding. The path comes from a
/// template over what a caller typed; it must not lead to another origin.
pub fn resolve_completion_url(base_url: &Url, resolved_path: &str) -> (resolved: Result<
    Url,
    BackendError,
>)
    ensures
        match completion_url(*base_url, resolved_path@) {
            Ok(url) => resolved == Ok::<Url, BackendError>(url),
            Err(view) => resolved matches Err(error) && error@ == view,
        },
        resolved matches Ok(url) ==> origin_of(url) == origin_of(*base_url),
{
    match join_url(base_url, resolved_path) {
        Err(error) => {
            let mut message: String = "joining completion path '".to_owned();
            message.append(resolved_path);
            message.append("' onto base URL: ");
            message.append(url_error_text(&error).as_str());
            Err(BackendError::InvalidSpec { message })
        },
        Ok(url) => match check_origin(&read_origin(base_url), &read_origin(&url), resolved_path) {
            Ok(()) => Ok(url),
            Err(error) => Err(error),
        },
    }
}

/// What came of a template: its text could not be read, it could not be
/// evaluated, or its value.
pub enum Evaluation {
    Unreadable { error: String },
    Failed { error: String },
    Value { text: String },
}

/// What came of the template of a header. A value that cannot stand in a
/// header is rejected.
pub enum HeaderEvaluation {
    Evaluated { evaluation: Evaluation },
    Rejected { error: String },
}

/// What came of the templates of an endpoint: the path, the query parameters
/// and the headers in the order of the configuration, and the body of a POST
/// that has a template.
pub struct Evaluations {
    pub path: Evaluation,
    pub query_params: Vec<Evaluation>,
    pub headers: Vec<HeaderEvaluation>,
    pub body: Option<Evaluation>,
}

/// The value of a template, or the refusal of the setting `place`.
pub open spec fn value_of(evaluation: Evaluation, place: Seq<char>) -> Result<
    Seq<char>,
    BackendErrorView,
> {
    match evaluation {
        Evaluation::Unreadable { error } => Err(
            BackendErrorView::InvalidSpec(
                "variable_completions.config."@ + place + " expression: "@ + error@,
            ),
        ),
        Evaluation::Failed { error } => Err(
            BackendErrorView::InvalidSpec(
                "variable_completions.config."@ + place + " evaluation: "@ + error@,
            ),
        ),
        Evaluation::Value { text } => Ok(text@),
    }
}

/// The value of the template of a header, or its refusal.
pub open spec fn header_value_of(evaluation: HeaderEvaluation, name: Seq<char>) -> Result<
    Seq<char>,
    BackendErrorView,
> {
    match evaluation {
        HeaderEvaluation::Evaluated { evaluation } => value_of(
            evaluation,
            "headers['"@ + name + "']"@,
        ),
        HeaderEvaluation::Rejected { error } => Err(
            BackendErrorView::InvalidSpec("completion header '"@ + name + "': "@ + error@),
        ),
    }
}

/// The first `n` query parameters with their values, or the refusal of the
/// first that has none.
pub open spec fn query_of(
    params: Seq<(Seq<char>, Seq<char>)>,
    evaluations: Seq<Evaluation>,
    n: nat,
) -> Result<Seq<(Seq<char>, Seq<char>)>, BackendErrorView>
    decreases n,
{
    if n == 0 {
        Ok(Seq::empty())
    } else {
        match query_of(params, evaluations, (n - 1) as nat) {
            Err(error) => Err(error),
            Ok(pairs) => {
                let name = params[n - 1].0;
                match value_of(evaluations[n - 1], "query_params['"@ + name + "']"@) {
                    Err(error) => Err(error),
                    Ok(value) => Ok(pairs.push((name, value))),
                }
            },
        }
    }
}

/// The first `n` headers with their values, or the refusal of the first that
/// has none.
pub open spec fn headers_of(
    headers: Seq<(Seq<char>, Seq<char>)>,
    evaluations: Seq<HeaderEvaluation>,
    n: nat,
) -> Result<Seq<(Seq<char>, Seq<char>)>, BackendErrorView>
    decreases n,
{
    if n == 0 {
        Ok(Seq::empty())
    } else {
        match headers_of(headers, evaluations, (n - 1) as nat) {
            Err(error) => Err(error),
            Ok(pairs) => {
                let name = headers[n - 1].0;
                match header_value_of(evaluations[n - 1], name) {
                    Err(error) => Err(error),
                    Ok(value) => Ok(pairs.push((name, value))),
                }
            },
        }
    }
}

/// An address with the first `n` pairs at the end of its query, where each of
/// them still fits.
pub open spec fn with_pairs(url: Url, pairs: Seq<(Seq<char>, Seq<char>)>, n: nat) -> Option<Url>
    decreases n,
{
    if n == 0 {
        Some(url)
    } else {
        match with_pairs(url, pairs, (n - 1) as nat) {
            None => None,
            Some(longer) => if pair_fits(longer, pairs[n - 1].0, pairs[n - 1].1) {
                Some(url_with_pair(longer, pairs[n - 1].0, pairs[n - 1].1))
            } else {
                None
            },
        }
    }
}

/// A header that no endpoint gets to set, in any ASCII case: it belongs to one
/// connection, tells of the proxies on the way, or is set by a JSON body.
pub open spec fn is_protected_header(name: Seq<char>, has_body: bool) -> bool {
    ||| same_ignoring_case(name, "host"@)
    ||| same_ignoring_case(name, "connection"@)
    ||| same_ignoring_case(name, "content-length"@)
    ||| same_ignoring_case(name, "forwarded"@)
    ||| same_ignoring_case(name, "via"@)
    ||| same_ignoring_case(name, "x-real-ip"@)
    ||| same_ignoring_case(name, "x-request-id"@)
    ||| stands_at(lowered(name), "x-forwarded-"@, 0)
    ||| has_body && same_ignoring_case(name, "accept"@)
    ||| has_body && same_ignoring_case(name, "content-type"@)
}

/// The headers that go out: those that are not protected, in order.
pub open spec fn forwarded_headers(
    headers: Seq<(Seq<char>, Seq<char>)>,
    has_body: bool,
) -> Seq<(Seq<char>, Seq<char>)> {
    headers.filter(|header: (Seq<char>, Seq<char>)| !is_protected_header(header.0, has_body))
}

/// The body of the request. A GET has none, nor a POST without a template;
/// the value of a template has to be a JSON text.
pub open spec fn body_of(config: ConfigView, evaluation: Option<Evaluation>) -> Result<
    Option<JsonView>,
    BackendErrorView,
> {
    if body_template_of(config) is Some {
        match value_of(evaluation->0, "body_template"@) {
            Err(error) => Err(error),
            Ok(text) => match parsed_json(encode_utf8(text)) {
                Ok(json) => Ok(Some(json)),
                Err(message) => Err(
                    BackendErrorView::InvalidSpec(
                        "body_template did not render to valid JSON: "@ + message,
                    ),
                ),
            },
        }
    } else {
        Ok(None)
    }
}

/// The request that a completion sends, and how its reply is read.
pub struct CompletionPlan {
    pub response_path: JsonPath,
    pub method: HttpBackendMethod,
    pub url: Url,
    pub headers: Vec<(String, String)>,
    pub body: Option<Json>,
}

/// A plan as contracts speak of it.
pub struct PlanView {
    pub response_path: JsonPath,
    pub method: HttpBackendMethod,
    pub url: Url,
    pub headers: Seq<(Seq<char>, Seq<char>)>,
    pub body: Option<JsonView>,
}

impl View for CompletionPlan {
    type V = PlanView;

    open spec fn view(&self) -> PlanView {
        PlanView {
            response_path: self.response_path,
            method: self.method,
            url: self.url,
            headers: pairs_view(self.headers@),
            body: crate::json::tree_of(self.body),
        }
    }
}

/// The templates of an endpoint have each come to something.
pub open spec fn evaluates(evaluations: Evaluations, config: ConfigView) -> bool {
    &&& evaluations.query_params@.len() == config.query_params.len()
    &&& evaluations.headers@.len() == config.headers.len()
    &&& body_template_of(config) is Some ==> evaluations.body is Some
}

/// What the JSONPath crate is given of a text. One that ends in a cut escape
/// gets a NUL behind it. No query holds a NUL and none is read past one, so the
/// crate refuses the text for what comes before.
pub open spec fn closed_path(text: Seq<char>) -> Seq<char> {
    if cuts_escape(text) {
        text + "\0"@
    } else {
        text
    }
}

/// The plan of a completion, or its first refusal: the JSONPath is read first,
/// then come the path, the address of the binding, the address of the
/// endpoint, the query, the headers and the body. `None` where the URL crate
/// cannot hold the address.
pub open spec fn planned(
    config: ConfigView,
    base_url: Seq<char>,
    evaluations: Evaluations,
) -> Option<Result<PlanView, BackendErrorView>> {
    match parsed_path(closed_path(config.response_path)) {
        Err(message) => Some(
            Err(
                BackendErrorView::InvalidSpec(
                    "variable_completions.config.response_path: "@ + message,
                ),
            ),
        ),
        Ok(response_path) => match target_of(config, base_url, evaluations) {
            Err(error) => Some(Err(error)),
            Ok(None) => None,
            Ok(Some(url)) => match headers_of(
                config.headers,
                evaluations.headers@,
                config.headers.len(),
            ) {
                Err(error) => Some(Err(error)),
                Ok(headers) => match body_of(config, evaluations.body) {
                    Err(error) => Some(Err(error)),
                    Ok(body) => Some(
                        Ok(
                            PlanView {
                                response_path,
                                method: config.method,
                                url,
                                headers: forwarded_headers(headers, body is Some),
                                body,
                            },
                        ),
                    ),
                },
            },
        },
    }
}

/// The address of the endpoint with its query; `None` where the URL crate
/// cannot hold it.
pub open spec fn target_of(
    config: ConfigView,
    base_url: Seq<char>,
    evaluations: Evaluations,
) -> Result<Option<Url>, BackendErrorView> {
    match value_of(evaluations.path, "path"@) {
        Err(error) => Err(error),
        Ok(path) => match parsed_url(base_url) {
            Err(message) => Err(
                BackendErrorView::InvalidSpec(
                    "HTTP binding base URL is not parseable: "@ + message,
                ),
            ),
            Ok(base) => match completion_url(base, path) {
                Err(error) => Err(error),
                Ok(url) => match query_of(
                    config.query_params,
                    evaluations.query_params@,
                    config.query_params.len(),
                ) {
                    Err(error) => Err(error),
                    Ok(pairs) => Ok(with_pairs(url, pairs, pairs.len())),
                },
            },
        },
    }
}

/// The refusal of the setting `place`, for the reason `what` + `error`.
fn setting_refused(place: &str, what: &str, error: &str) -> (refusal: BackendError)
    ensures
        refusal@ == BackendErrorView::InvalidSpec(
            "variable_completions.config."@ + place@ + what@ + error@,
        ),
{
    let mut message: String = "variable_completions.config.".to_owned();
    message.append(place);
    message.append(what);
    message.append(error);
    BackendError::InvalidSpec { message }
}

/// The value of a template, or the refusal of the setting `place`.
fn evaluated(evaluation: &Evaluation, place: &str) -> (value: Result<String, BackendError>)
    ensures
        match value_of(*evaluation, place@) {
            Ok(view) => value matches Ok(text) && text@ == view,
            Err(view) => value matches Err(error) && error@ == view,
        },
{
    match evaluation {
        Evaluation::Unreadable { error } => Err(
            setting_refused(place, " expression: ", error.as_str()),
        ),
        Evaluation::Failed { error } => Err(
            setting_refused(place, " evaluation: ", error.as_str()),
        ),
        Evaluation::Value { text } => Ok(text.clone()),
    }
}

/// The place of an entry of a setting.
fn entry_place(before: &str, name: &str) -> (place: String)
    ensures
        place@ == before@ + name@ + "']"@,
{
    let mut place: String = before.to_owned();
    place.append(name);
    place.append("']");
    place
}

/// The query parameters with their values.
fn resolve_query(
    params: &Vec<(String, String)>,
    evaluations: &Vec<Evaluation>,
) -> (resolved: Result<Vec<(String, String)>, BackendError>)
    requires
        evaluations@.len() == params@.len(),
    ensures
        match query_of(pairs_view(params@), evaluations@, params@.len()) {
            Ok(view) => resolved matches Ok(pairs) && pairs_view(pairs@) == view,
            Err(view) => resolved matches Err(error) && error@ == view,
        },
{
    let mut pairs: Vec<(String, String)> = Vec::new();
    let mut i: usize = 0;
    assert(pairs_view(pairs@) =~= Seq::empty());
    while i < params.len()
        invariant
            evaluations@.len() == params@.len(),
            i <= params.len(),
            query_of(pairs_view(params@), evaluations@, i as nat) == Ok::<
                Seq<(Seq<char>, Seq<char>)>,
                BackendErrorView,
            >(pairs_view(pairs@)),
        decreases params.len() - i,
    {
        let name: &str = params[i].0.as_str();
        let place: String = entry_place("query_params['", name);
        match evaluated(&evaluations[i], place.as_str()) {
            Err(error) => {
                proof {
                    lemma_query_refused(
                        pairs_view(params@),
                        evaluations@,
                        (i + 1) as nat,
                        params@.len(),
                    );
                }
                return Err(error);
            },
            Ok(value) => {
                let ghost before = pairs@;
                let pair: (String, String) = (name.to_owned(), value);
                pairs.push(pair);
                assert(pairs_view(pairs@) =~= pairs_view(before).push((pair.0@, pair.1@)));
            },
        }
        i = i + 1;
    }
    Ok(pairs)
}

/// A refusal among the first query parameters is that of the whole query.
proof fn lemma_query_refused(
    params: Seq<(Seq<char>, Seq<char>)>,
    evaluations: Seq<Evaluation>,
    n: nat,
    len: nat,
)
    requires
        n <= len,
        query_of(params, evaluations, n) is Err,
    ensures
        query_of(params, evaluations, len) == query_of(params, evaluations, n),
    decreases len - n,
{
    if n < len {
        lemma_query_refused(params, evaluations, n, (len - 1) as nat);
    }
}

/// The headers with their values.
fn resolve_headers(
    headers: &Vec<(String, String)>,
    evaluations: &Vec<HeaderEvaluation>,
) -> (resolved: Result<Vec<(String, String)>, BackendError>)
    requires
        evaluations@.len() == headers@.len(),
    ensures
        match headers_of(pairs_view(headers@), evaluations@, headers@.len()) {
            Ok(view) => resolved matches Ok(pairs) && pairs_view(pairs@) == view,
            Err(view) => resolved matches Err(error) && error@ == view,
        },
{
    let mut pairs: Vec<(String, String)> = Vec::new();
    let mut i: usize = 0;
    assert(pairs_view(pairs@) =~= Seq::empty());
    while i < headers.len()
        invariant
            evaluations@.len() == headers@.len(),
            i <= headers.len(),
            headers_of(pairs_view(headers@), evaluations@, i as nat) == Ok::<
                Seq<(Seq<char>, Seq<char>)>,
                BackendErrorView,
            >(pairs_view(pairs@)),
        decreases headers.len() - i,
    {
        let name: &str = headers[i].0.as_str();
        let value: Result<String, BackendError> = match &evaluations[i] {
            HeaderEvaluation::Evaluated { evaluation } => {
                let place: String = entry_place("headers['", name);
                evaluated(evaluation, place.as_str())
            },
            HeaderEvaluation::Rejected { error } => {
                let mut message: String = "completion header '".to_owned();
                message.append(name);
                message.append("': ");
                message.append(error.as_str());
                Err(BackendError::InvalidSpec { message })
            },
        };
        match value {
            Err(error) => {
                proof {
                    lemma_headers_refused(
                        pairs_view(headers@),
                        evaluations@,
                        (i + 1) as nat,
                        headers@.len(),
                    );
                }
                return Err(error);
            },
            Ok(value) => {
                let ghost before = pairs@;
                let pair: (String, String) = (name.to_owned(), value);
                pairs.push(pair);
                assert(pairs_view(pairs@) =~= pairs_view(before).push((pair.0@, pair.1@)));
            },
        }
        i = i + 1;
    }
    Ok(pairs)
}

/// A refusal among the first headers is that of all of them.
proof fn lemma_headers_refused(
    headers: Seq<(Seq<char>, Seq<char>)>,
    evaluations: Seq<HeaderEvaluation>,
    n: nat,
    len: nat,
)
    requires
        n <= len,
        headers_of(headers, evaluations, n) is Err,
    ensures
        headers_of(headers, evaluations, len) == headers_of(headers, evaluations, n),
    decreases len - n,
{
    if n < len {
        lemma_headers_refused(headers, evaluations, n, (len - 1) as nat);
    }
}

/// How many bytes a form-encoded query writes for some bytes.
pub fn count_encoded(bytes: &[u8]) -> (length: u128)
    ensures
        length == encoded_length(bytes@),
        length <= 3 * usize::MAX,
{
    let mut length: u128 = 0;
    let mut i: usize = 0;
    assert(bytes@.take(0) =~= Seq::empty());
    while i < bytes.len()
        invariant
            i <= bytes.len(),
            length == encoded_length(bytes@.take(i as int)),
            length <= 3 * i,
        decreases bytes.len() - i,
    {
        let byte: u8 = bytes[i];
        proof {
            assert(bytes@.take(i + 1).drop_last() =~= bytes@.take(i as int));
            assert(bytes@.take(i + 1).last() == byte);
        }
        length = length + if plain_byte(byte) || byte == 0x20 {
            1u128
        } else {
            3u128
        };
        i = i + 1;
    }
    assert(bytes@.take(i as int) =~= bytes@);
    length
}

/// Whether a form-encoded query writes a byte as it is.
fn plain_byte(byte: u8) -> (plain: bool)
    ensures
        plain == is_plain_byte(byte),
{
    (0x30 <= byte && byte <= 0x39) || (0x41 <= byte && byte <= 0x5a) || (0x61 <= byte && byte
        <= 0x7a) || byte == 0x2a || byte == 0x2d || byte == 0x2e || byte == 0x5f
}

/// Whether the URL crate can give an address one more pair.
fn fits(url: &Url, name: &str, value: &str) -> (fit: bool)
    ensures
        fit == pair_fits(*url, name@, value@),
{
    let stem: u128 = stem_length(url) as u128;
    let query: usize = query_length(url);
    let separator: u128 = if query == 1 {
        0
    } else {
        1
    };
    let added: u128 = separator + count_encoded(name.as_bytes()) + 1 + count_encoded(
        value.as_bytes(),
    );
    let limit: u128 = u32::MAX as u128;
    (query != 0 || stem <= limit) && (fragment_length(url) == 0 || stem + added <= limit)
}

/// Appends pairs to the query of an address; `None` where the URL crate cannot
/// hold it, for more than 32 bits of length. The origin stays.
pub fn append_query(url: Url, pairs: &Vec<(String, String)>) -> (appended: Option<Url>)
    ensures
        appended == with_pairs(url, pairs_view(pairs@), pairs@.len()),
        appended matches Some(longer) ==> origin_of(longer) == origin_of(url),
{
    let mut longer: Url = url;
    let mut i: usize = 0;
    while i < pairs.len()
        invariant
            i <= pairs.len(),
            with_pairs(url, pairs_view(pairs@), i as nat) == Some(longer),
            origin_of(longer) == origin_of(url),
        decreases pairs.len() - i,
    {
        let pair: &(String, String) = &pairs[i];
        if !fits(&longer, pair.0.as_str(), pair.1.as_str()) {
            proof {
                lemma_pairs_refused(url, pairs_view(pairs@), (i + 1) as nat, pairs@.len());
            }
            return None;
        }
        append_pair(&mut longer, pair.0.as_str(), pair.1.as_str());
        i = i + 1;
    }
    Some(longer)
}

/// Pairs that do not fit do not with more of them either.
proof fn lemma_pairs_refused(url: Url, pairs: Seq<(Seq<char>, Seq<char>)>, n: nat, len: nat)
    requires
        n <= len,
        with_pairs(url, pairs, n) is None,
    ensures
        with_pairs(url, pairs, len) is None,
    decreases len - n,
{
    if n < len {
        lemma_pairs_refused(url, pairs, n, (len - 1) as nat);
    }
}

/// The address of the endpoint with its query. It has the origin of the
/// binding's address.
fn resolve_target(
    config: &HttpCompletionConfig,
    base_url: &str,
    evaluations: &Evaluations,
) -> (target: Result<Option<Url>, BackendError>)
    requires
        evaluates(*evaluations, config@),
    ensures
        match target_of(config@, base_url@, *evaluations) {
            Ok(url) => target == Ok::<Option<Url>, BackendError>(url),
            Err(view) => target matches Err(error) && error@ == view,
        },
        target matches Ok(Some(url)) ==> parsed_url(base_url@) matches Ok(base) && origin_of(url)
            == origin_of(base),
{
    let path: String = match evaluated(&evaluations.path, "path") {
        Ok(path) => path,
        Err(error) => return Err(error),
    };
    let base: Url = match parse_url(base_url) {
        Ok(base) => base,
        Err(error) => return Err(
            invalid_spec(
                "HTTP binding base URL is not parseable: ",
                url_error_text(&error).as_str(),
            ),
        ),
    };
    let url: Url = match resolve_completion_url(&base, path.as_str()) {
        Ok(url) => url,
        Err(error) => return Err(error),
    };
    let pairs: Vec<(String, String)> = match resolve_query(
        &config.query_params,
        &evaluations.query_params,
    ) {
        Ok(pairs) => pairs,
        Err(error) => return Err(error),
    };
    Ok(append_query(url, &pairs))
}

/// The body of the request.
fn resolve_body(config: &HttpCompletionConfig, evaluation: &Option<Evaluation>) -> (body: Result<
    Option<Json>,
    BackendError,
>)
    requires
        body_template_of(config@) is Some ==> evaluation is Some,
    ensures
        match body_of(config@, *evaluation) {
            Ok(view) => body matches Ok(body) && crate::json::tree_of(body) == view,
            Err(view) => body matches Err(error) && error@ == view,
        },
{
    if config.body_to_render().is_none() {
        return Ok(None);
    }
    match evaluation {
        None => Ok(None),
        Some(evaluation) => match evaluated(evaluation, "body_template") {
            Err(error) => Err(error),
            Ok(text) => match parse_json(text.as_str().as_bytes()) {
                Ok(json) => Ok(Some(json)),
                Err(message) => Err(
                    invalid_spec(
                        "body_template did not render to valid JSON: ",
                        message.as_str(),
                    ),
                ),
            },
        },
    }
}

/// Whether an endpoint does not get to set a header.
fn protects(name: &str, has_body: bool) -> (protected: bool)
    ensures
        protected == is_protected_header(name@, has_body),
{
    eq_ignoring_case(name, "host") || eq_ignoring_case(name, "connection") || eq_ignoring_case(
        name,
        "content-length",
    ) || eq_ignoring_case(name, "forwarded") || eq_ignoring_case(name, "via") || eq_ignoring_case(
        name,
        "x-real-ip",
    ) || eq_ignoring_case(name, "x-request-id") || lowered_begins_with(name, "x-forwarded-") || (
    has_body && (eq_ignoring_case(name, "accept") || eq_ignoring_case(name, "content-type")))
}

/// The headers that go out.
pub fn forward_headers(headers: &Vec<(String, String)>, has_body: bool) -> (forwarded: Vec<
    (String, String),
>)
    ensures
        pairs_view(forwarded@) == forwarded_headers(pairs_view(headers@), has_body),
{
    let ghost view = pairs_view(headers@);
    let ghost goes_on = |header: (Seq<char>, Seq<char>)| !is_protected_header(header.0, has_body);
    let mut forwarded: Vec<(String, String)> = Vec::new();
    let mut i: usize = 0;
    proof {
        reveal(Seq::filter);
        assert(pairs_view(forwarded@) =~= view.take(0).filter(goes_on));
    }
    while i < headers.len()
        invariant
            view == pairs_view(headers@),
            goes_on == (|header: (Seq<char>, Seq<char>)| !is_protected_header(header.0, has_body)),
            i <= headers.len(),
            pairs_view(forwarded@) == view.take(i as int).filter(goes_on),
        decreases headers.len() - i,
    {
        let header: &(String, String) = &headers[i];
        let ghost before = forwarded@;
        proof {
            reveal(Seq::filter);
            assert(view.take(i + 1).drop_last() =~= view.take(i as int));
            assert(view.take(i + 1).last() == (header.0@, header.1@));
        }
        if !protects(header.0.as_str(), has_body) {
            forwarded.push((header.0.clone(), header.1.clone()));
            assert(pairs_view(forwarded@) =~= pairs_view(before).push((header.0@, header.1@)));
        }
        i = i + 1;
    }
    assert(view.take(i as int) =~= view);
    forwarded
}

/// Reads the JSONPath of an endpoint, or says why it is none, in the words of
/// the JSONPath crate. `$` finds the reply itself; a text that ends in a cut
/// escape is no JSONPath.
pub fn read_response_path(text: &str) -> (path: Result<JsonPath, String>)
    ensures
        match path {
            Ok(path) => parsed_path(closed_path(text@)) == Ok::<JsonPath, Seq<char>>(path),
            Err(message) => parsed_path(closed_path(text@)) == Err::<JsonPath, Seq<char>>(
                message@,
            ),
        },
        text@ == "$"@ ==> path is Ok && finds_root(path->Ok_0),
        cuts_escape(text@) ==> path is Err,
{
    proof {
        reveal_strlit("$");
        reveal_strlit("\\u");
        reveal_strlit("\\uD");
        reveal_strlit("\\ud");
        reveal_strlit("\0");
    }
    let mut closed: String = text.to_owned();
    if ends_in_escape(text) {
        closed.append("\0");
        proof {
            lemma_nul_closes(text@);
        }
    }
    match parse_path(closed.as_str()) {
        Ok(path) => Ok(path),
        Err(error) => Err(path_error_text(&error)),
    }
}

/// A text with a NUL behind it does not end in a cut escape.
proof fn lemma_nul_closes(text: Seq<char>)
    ensures
        !cuts_escape(text + "\0"@),
        (text + "\0"@).contains('\0'),
{
    let closed = text + "\0"@;
    reveal_strlit("\\u");
    reveal_strlit("\\uD");
    reveal_strlit("\\ud");
    reveal_strlit("\0");
    assert(closed.last() == '\0');
    assert(closed[closed.len() - 1] == '\0');
    assert("\\u"@.len() == 2 && "\\uD"@.len() == 3 && "\\ud"@.len() == 3);
    if stands_at(closed, "\\u"@, closed.len() - 2) {
        assert(closed.subrange(closed.len() - 2, closed.len() as int)[1] == closed.last());
    }
    if stands_at(closed, "\\uD"@, closed.len() - 3) {
        assert(closed.subrange(closed.len() - 3, closed.len() as int)[2] == closed.last());
    }
    if stands_at(closed, "\\ud"@, closed.len() - 3) {
        assert(closed.subrange(closed.len() - 3, closed.len() as int)[2] == closed.last());
    }
}

/// Plans the request of a completion. Whatever the templates came to, the
/// request goes to the origin of the binding's address. `None` where the URL
/// crate cannot hold its address.
pub fn plan_completion(
    config: &HttpCompletionConfig,
    base_url: &str,
    evaluations: &Evaluations,
) -> (plan: Option<Result<CompletionPlan, BackendError>>)
    requires
        evaluates(*evaluations, config@),
    ensures
        match planned(config@, base_url@, *evaluations) {
            None => plan is None,
            Some(Ok(view)) => plan matches Some(Ok(plan)) && plan@ == view,
            Some(Err(view)) => plan matches Some(Err(error)) && error@ == view,
        },
        plan matches Some(Ok(plan)) ==> parsed_url(base_url@) matches Ok(base) && origin_of(
            plan.url,
        ) == origin_of(base),
        plan matches Some(Ok(plan)) ==> (config@.response_path == "$"@ ==> finds_root(
            plan.response_path,
        )),
{
    let response_path: JsonPath = match read_response_path(config.response_path.as_str()) {
        Ok(path) => path,
        Err(message) => return Some(
            Err(
                invalid_spec("variable_completions.config.response_path: ", message.as_str()),
            ),
        ),
    };
    let url: Url = match resolve_target(config, base_url, evaluations) {
        Ok(Some(url)) => url,
        Ok(None) => return None,
        Err(error) => return Some(Err(error)),
    };
    let headers: Vec<(String, String)> = match resolve_headers(
        &config.headers,
        &evaluations.headers,
    ) {
        Ok(headers) => headers,
        Err(error) => return Some(Err(error)),
    };
    match resolve_body(config, &evaluations.body) {
        Err(error) => Some(Err(error)),
        Ok(body) => {
            let headers: Vec<(String, String)> = forward_headers(&headers, body.is_some());
            Some(Ok(CompletionPlan { response_path, method: config.method, url, headers, body }))
        },
    }
}

/// The candidates among what a JSONPath found: a string is one, an array holds
/// those of its items that are strings, and nothing else counts.
pub open spec fn candidates(found: Seq<JsonView>) -> Seq<Seq<char>>
    decreases found.len(),
{
    if found.len() == 0 {
        Seq::empty()
    } else {
        match found.last() {
            JsonView::Text(text) => candidates(found.drop_last()).push(text),
            JsonView::Items(items) => candidates(found.drop_last()) + strings_among(items),
            _ => candidates(found.drop_last()),
        }
    }
}

/// Collects the candidates among what a JSONPath found.
pub fn collect_candidates(found: &Vec<Json>) -> (strings: Vec<String>)
    ensures
        texts(strings@) == candidates(documents(found@)),
{
    let mut strings: Vec<String> = Vec::new();
    let mut i: usize = 0;
    proof {
        crate::json::lemma_items_view(found@, found@.len());
    }
    let ghost documents = documents(found@);
    assert(texts(strings@) =~= candidates(documents.take(0)));
    while i < found.len()
        invariant
            i <= found.len(),
            documents.len() == found@.len(),
            forall|j: int| 0 <= j < found@.len() ==> #[trigger] documents[j] == found@[j]@,
            texts(strings@) == candidates(documents.take(i as int)),
        decreases found.len() - i,
    {
        proof {
            assert(documents.take(i + 1).drop_last() =~= documents.take(i as int));
            assert(documents.take(i + 1).last() == found@[i as int]@);
        }
        let ghost before = strings@;
        match &found[i] {
            Json::Text(text) => {
                strings.push(text.clone());
                assert(texts(strings@) =~= texts(before).push(text@));
            },
            Json::Items(items) => append_strings(items, &mut strings),
            _ => {},
        }
        i = i + 1;
    }
    assert(documents.take(i as int) =~= documents);
    strings
}

/// The candidates in a reply. A reply that is no JSON has none.
pub open spec fn candidates_in(path: JsonPath, body: Seq<u8>) -> Seq<Seq<char>> {
    match parsed_json(body) {
        Ok(document) => candidates(path_matches(path, document)),
        Err(_) => Seq::empty(),
    }
}

/// Reads the candidates out of a reply. A reply that was cut, or is no JSON,
/// has none: completion is a hint.
pub fn extract_candidates(path: &JsonPath, body: &[u8]) -> (strings: Vec<String>)
    ensures
        texts(strings@) == candidates_in(*path, body@),
{
    match parse_json(body) {
        Err(_) => {
            let none: Vec<String> = Vec::new();
            assert(texts(none@) =~= Seq::empty());
            none
        },
        Ok(document) => {
            let values: Vec<serde_json::Value> = query_path(path, &to_value(&document));
            let ghost matches = values_view(values@);
            let mut found: Vec<Json> = Vec::new();
            for value in it: values
                invariant
                    it.seq() == values@,
                    matches == values_view(values@),
                    documents(found@) == matches.take(it.index() as int),
            {
                let ghost before = found@;
                let json: Json = from_value(value);
                found.push(json);
                proof {
                    crate::json::lemma_documents_push(before, json);
                    assert(matches[it.index() as int] == json_of(value));
                    assert(documents(found@) =~= matches.take(it.index() + 1));
                }
            }
            assert(matches.take(matches.len() as int) =~= matches);
            collect_candidates(&found)
        },
    }
}

/// A status of the 200 class.
pub open spec fn is_success(status: u16) -> bool {
    200 <= status <= 299
}

/// Whether the reply with a status is read.
pub fn accepts_status(status: u16) -> (accepted: bool)
    ensures
        accepted == is_success(status),
{
    200 <= status && status <= 299
}

/// What came of the request of a completion.
pub enum CompletionReply {
    /// There was no client to send it with.
    NoClient { error: String },
    /// It could not be sent.
    NotSent { error: String },
    /// It was answered. `status_text` names the status; the body is read where
    /// the status is accepted.
    Answered { status: u16, status_text: String, body: Option<Result<Vec<u8>, String>> },
}

/// The body of a reply was read where its status is accepted.
pub open spec fn body_was_read(reply: CompletionReply) -> bool {
    match reply {
        CompletionReply::Answered { status, body, .. } => is_success(status) ==> body is Some,
        _ => true,
    }
}

/// The candidates of a reply, or why there are none.
pub open spec fn concluded(path: JsonPath, reply: CompletionReply) -> Result<
    Seq<Seq<char>>,
    BackendErrorView,
> {
    match reply {
        CompletionReply::NoClient { error } => Err(
            BackendErrorView::Transport("building HTTP completion client: "@ + error@),
        ),
        CompletionReply::NotSent { error } => Err(
            BackendErrorView::Transport("HTTP completion request failed: "@ + error@),
        ),
        CompletionReply::Answered { status, status_text, body } => if !is_success(status) {
            Err(
                BackendErrorView::Transport(
                    "HTTP completion endpoint returned non-success status "@ + status_text@,
                ),
            )
        } else {
            match body->0 {
                Ok(body) => Ok(candidates_in(path, body@)),
                Err(error) => Err(
                    BackendErrorView::Transport("HTTP completion body read failed: "@ + error@),
                ),
            }
        },
    }
}

/// Concludes a completion.
pub fn conclude_completion(path: &JsonPath, reply: &CompletionReply) -> (values: Result<
    Vec<String>,
    BackendError,
>)
    requires
        body_was_read(*reply),
    ensures
        match concluded(*path, *reply) {
            Ok(view) => values matches Ok(strings) && texts(strings@) == view,
            Err(view) => values matches Err(error) && error@ == view,
        },
{
    match reply {
        CompletionReply::NoClient { error } => Err(
            transport("building HTTP completion client: ", error.as_str()),
        ),
        CompletionReply::NotSent { error } => Err(
            transport("HTTP completion request failed: ", error.as_str()),
        ),
        CompletionReply::Answered { status, status_text, body } => {
            if !accepts_status(*status) {
                return Err(
                    transport(
                        "HTTP completion endpoint returned non-success status ",
                        status_text.as_str(),
                    ),
                );
            }
            match body {
                Some(Ok(body)) => Ok(extract_candidates(path, body.as_slice())),
                Some(Err(error)) => Err(
                    transport("HTTP completion body read failed: ", error.as_str()),
                ),
                None => Ok(Vec::new()),
            }
        },
    }
}

/// With the default JSONPath, a reply that is an array of strings offers
/// exactly those strings, in order.
pub proof fn law_default_path_offers_the_array(
    path: JsonPath,
    body: Seq<u8>,
    items: Seq<JsonView>,
    strings: Seq<Seq<char>>,
)
    requires
        finds_root(path),
        parsed_json(body) == Ok::<JsonView, Seq<char>>(JsonView::Items(items)),
        items.len() == strings.len(),
        forall|i: int| 0 <= i < items.len() ==> #[trigger] items[i] == JsonView::Text(strings[i]),
    ensures
        candidates_in(path, body) == strings,
{
    let document = JsonView::Items(items);
    let found = path_matches(path, document);
    assert(found == seq![document]);
    law_list_of_strings_is_kept(items, strings);
    assert(found.drop_last() =~= Seq::<JsonView>::empty());
    assert(found.last() == document);
    assert(candidates(found.drop_last()) =~= Seq::<Seq<char>>::empty());
    assert(candidates(found) =~= strings);
}

/// A GET sends no body, whatever template it has.
pub proof fn law_get_sends_no_body(
    config: ConfigView,
    base_url: Seq<char>,
    evaluations: Evaluations,
)
    requires
        config.method == HttpBackendMethod::Get,
    ensures
        planned(config, base_url, evaluations) matches Some(Ok(plan)) ==> plan.body is None,
{
}

/// No endpoint sets a protected header, whatever its configuration names.
pub proof fn law_no_protected_header_goes_out(
    config: ConfigView,
    base_url: Seq<char>,
    evaluations: Evaluations,
)
    ensures
        planned(config, base_url, evaluations) matches Some(Ok(plan)) ==> forall|i: int|
            0 <= i < plan.headers.len() ==> !is_protected_header(
                (#[trigger] plan.headers[i]).0,
                plan.body is Some,
            ),
{
    if let Some(Ok(plan)) = planned(config, base_url, evaluations) {
        let has_body = plan.body is Some;
        let goes_on = |header: (Seq<char>, Seq<char>)| !is_protected_header(header.0, has_body);
        let headers = headers_of(config.headers, evaluations.headers@, config.headers.len())->Ok_0;
        assert forall|i: int| 0 <= i < plan.headers.len() implies !is_protected_header(
            (#[trigger] plan.headers[i]).0,
            has_body,
        ) by {
            headers.lemma_filter_pred(goes_on, i);
        }
    }
}

/// Every other header goes out with its value.
pub proof fn law_every_other_header_goes_out(
    config: ConfigView,
    base_url: Seq<char>,
    evaluations: Evaluations,
    i: int,
)
    requires
        0 <= i < config.headers.len(),
    ensures
        match (
            planned(config, base_url, evaluations),
            header_value_of(evaluations.headers@[i], config.headers[i].0),
        ) {
            (Some(Ok(plan)), Ok(value)) => is_protected_header(
                config.headers[i].0,
                plan.body is Some,
            ) || plan.headers.contains((config.headers[i].0, value)),
            (Some(Ok(_)), Err(_)) => false,
            _ => true,
        },
{
    if let Some(Ok(plan)) = planned(config, base_url, evaluations) {
        let has_body = plan.body is Some;
        let goes_on = |header: (Seq<char>, Seq<char>)| !is_protected_header(header.0, has_body);
        let headers = headers_of(config.headers, evaluations.headers@, config.headers.len())->Ok_0;
        lemma_header_is_resolved(config.headers, evaluations.headers@, config.headers.len(), i);
        if !is_protected_header(config.headers[i].0, has_body) {
            headers.lemma_filter_contains(goes_on, i);
        }
    }
}

/// Where all headers have values, each stands at its place with its own.
proof fn lemma_header_is_resolved(
    headers: Seq<(Seq<char>, Seq<char>)>,
    evaluations: Seq<HeaderEvaluation>,
    n: nat,
    i: int,
)
    requires
        0 <= i < n <= headers.len(),
        headers_of(headers, evaluations, n) is Ok,
    ensures
        headers_of(headers, evaluations, n)->Ok_0.len() == n,
        header_value_of(evaluations[i], headers[i].0) matches Ok(value) && headers_of(
            headers,
            evaluations,
            n,
        )->Ok_0[i] == (headers[i].0, value),
    decreases n,
{
    law_headers_keep_their_names(headers, evaluations, n);
    law_headers_keep_their_names(headers, evaluations, (n - 1) as nat);
    if i < n - 1 {
        lemma_header_is_resolved(headers, evaluations, (n - 1) as nat, i);
    }
}

/// Headers are resolved in the order of the configuration, under its names.
pub proof fn law_headers_keep_their_names(
    headers: Seq<(Seq<char>, Seq<char>)>,
    evaluations: Seq<HeaderEvaluation>,
    n: nat,
)
    requires
        n <= headers.len(),
    ensures
        headers_of(headers, evaluations, n) matches Ok(resolved) ==> resolved.len() == n
            && forall|i: int| 0 <= i < n ==> (#[trigger] resolved[i]).0 == headers[i].0,
    decreases n,
{
    if n > 0 {
        law_headers_keep_their_names(headers, evaluations, (n - 1) as nat);
    }
}

/// What an operator gives for an endpoint is what it has, and what they leave
/// out has its default: a GET without parameters, headers and body, whose
/// JSONPath finds the reply itself.
pub proof fn law_endpoint_has_what_was_given(
    fields: HttpCompletionFields,
    config: HttpCompletionConfig,
)
    requires
        config@ == completed_config(fields),
    ensures
        config.path@ == fields.path@,
        fields.method matches Some(method) ==> config.method == method,
        fields.method is None ==> config.method == HttpBackendMethod::Get,
        fields.query_params matches Some(params) ==> settles(
            pairs_view(config.query_params@),
            pairs_view(params@),
        ),
        fields.query_params is None ==> config.query_params@.len() == 0,
        fields.headers matches Some(headers) ==> settles(
            pairs_view(config.headers@),
            pairs_view(headers@),
        ),
        fields.headers is None ==> config.headers@.len() == 0,
        fields.response_path matches Some(path) ==> config.response_path@ == path@,
        fields.response_path is None ==> config.response_path@ == "$"@,
        fields.body_template matches Some(template) ==> config.body_template is Some
            && config.body_template->0@ == template@,
        fields.body_template is None ==> config.body_template is None,
{
    assert(pairs_view(config.query_params@) == config@.query_params);
    assert(pairs_view(config.headers@) == config@.headers);
    if let Some(params) = fields.query_params {
        lemma_collated_settles(pairs_view(params@));
    }
    if let Some(headers) = fields.headers {
        lemma_collated_settles(pairs_view(headers@));
    }
}

/// A configuration is told with each of its settings.
pub proof fn law_endpoint_is_told_whole(config: HttpCompletionConfig)
    ensures
        config@.method == config.method,
        config@.path == config.path@,
        config@.query_params == pairs_view(config.query_params@),
        config@.headers == pairs_view(config.headers@),
        config@.response_path == config.response_path@,
        config@.body_template == text_of(config.body_template),
        config.method == HttpBackendMethod::Get ==> body_template_of(config@) is None,
        config.method == HttpBackendMethod::Post ==> body_template_of(config@) == text_of(
            config.body_template,
        ),
{
}

/// The templates of an endpoint see the text typed so far, the variable, and
/// each variable that is known already with its value; and nothing else.
pub proof fn law_templates_see_the_completion(
    variable_name: Seq<char>,
    prefix: Seq<char>,
    context: Seq<(Seq<char>, Seq<char>)>,
    name: Seq<char>,
)
    ensures
        ({
            let arguments = JsonView::Fields(completion_fields(variable_name, prefix, context));
            let known = field_of(arguments, "context"@)->0;
            &&& field_of(arguments, "prefix"@) == Some(JsonView::Text(prefix))
            &&& field_of(arguments, "var_name"@) == Some(JsonView::Text(variable_name))
            &&& field_of(arguments, "context"@) is Some
            &&& field_of(known, name) is Some <==> exists|i: int|
                0 <= i < context.len() && (#[trigger] context[i]).0 == name
            &&& forall|i: int|
                0 <= i < context.len() && (#[trigger] context[i]).0 == name && (forall|j: int|
                    i < j < context.len() ==> (#[trigger] context[j]).0 != name) ==> field_of(
                    known,
                    name,
                ) == Some(JsonView::Text(context[i].1))
            &&& field_of(arguments, name) is Some ==> name == "prefix"@ || name == "var_name"@
                || name == "context"@
        }),
{
    reveal_strlit("prefix");
    reveal_strlit("var_name");
    reveal_strlit("context");
    assert("prefix"@.len() == 6);
    assert("var_name"@.len() == 8);
    assert("context"@.len() == 7);
    law_object_holds_its_strings(context, context.len(), name);
}

/// The same scheme, host and port.
pub open spec fn same_origin(a: Url, b: Url) -> bool {
    &&& url_scheme(a) == url_scheme(b)
    &&& url_host(a) == url_host(b)
    &&& url_port(a) == url_port(b)
}

/// A path leads to an address exactly where it can be joined onto the base and
/// stays at its scheme, host and port; every other path is refused, for the
/// reason that holds.
pub proof fn law_path_stays_at_the_origin(base: Url, path: Seq<char>)
    ensures
        joined_url(base, path) matches Ok(url) ==> {
            &&& same_origin(url, base) ==> completion_url(base, path) == Ok::<
                Url,
                BackendErrorView,
            >(url)
            &&& !same_origin(url, base) ==> completion_url(base, path) == Err::<
                Url,
                BackendErrorView,
            >(
                BackendErrorView::InvalidSpec(
                    "completion path '"@ + path + "' resolved to a different origin ("@
                        + url_scheme(url) + "://"@ + (match url_host(url) {
                        Some(host) => host,
                        None => "<none>"@,
                    })
                        + ") than the binding base; cross-origin completion targets are refused (SSRF guard)"@,
                ),
            )
        },
        joined_url(base, path) matches Err(message) ==> completion_url(base, path) == Err::<
            Url,
            BackendErrorView,
        >(
            BackendErrorView::InvalidSpec(
                "joining completion path '"@ + path + "' onto base URL: "@ + message,
            ),
        ),
{
}

/// A template that came to a value is that value, and any other is refused with
/// its setting, what went wrong and why.
pub proof fn law_template_is_its_value(
    evaluation: Evaluation,
    rejection: String,
    place: Seq<char>,
    name: Seq<char>,
)
    ensures
        evaluation matches Evaluation::Value { text } ==> value_of(evaluation, place) == Ok::<
            Seq<char>,
            BackendErrorView,
        >(text@),
        evaluation matches Evaluation::Unreadable { error } ==> value_of(evaluation, place)
            == Err::<Seq<char>, BackendErrorView>(
            BackendErrorView::InvalidSpec(
                "variable_completions.config."@ + place + " expression: "@ + error@,
            ),
        ),
        evaluation matches Evaluation::Failed { error } ==> value_of(evaluation, place) == Err::<
            Seq<char>,
            BackendErrorView,
        >(
            BackendErrorView::InvalidSpec(
                "variable_completions.config."@ + place + " evaluation: "@ + error@,
            ),
        ),
        header_value_of((HeaderEvaluation::Evaluated { evaluation }), name) == value_of(
            evaluation,
            "headers['"@ + name + "']"@,
        ),
        header_value_of((HeaderEvaluation::Rejected { error: rejection }), name) == Err::<
            Seq<char>,
            BackendErrorView,
        >(BackendErrorView::InvalidSpec("completion header '"@ + name + "': "@ + rejection@)),
{
}

/// Each address is the one before it with the next pair at the end of its
/// query.
pub open spec fn grows_by(addresses: Seq<Url>, pairs: Seq<(Seq<char>, Seq<char>)>) -> bool {
    &&& addresses.len() == pairs.len() + 1
    &&& forall|i: int|
        0 <= i < pairs.len() ==> #[trigger] addresses[i + 1] == url_with_pair(
            addresses[i],
            pairs[i].0,
            pairs[i].1,
        )
}

/// An address with the first pairs of a list is reached by adding them one
/// after the other.
proof fn lemma_pairs_are_added(url: Url, pairs: Seq<(Seq<char>, Seq<char>)>, n: nat) -> (addresses:
    Seq<Url>)
    requires
        n <= pairs.len(),
        with_pairs(url, pairs, n) is Some,
    ensures
        grows_by(addresses, pairs.take(n as int)),
        addresses[0] == url,
        addresses.last() == with_pairs(url, pairs, n)->0,
    decreases n,
{
    if n == 0 {
        seq![url]
    } else {
        let before = lemma_pairs_are_added(url, pairs, (n - 1) as nat);
        let addresses = before.push(with_pairs(url, pairs, n)->0);
        let taken = pairs.take(n as int);
        assert forall|i: int| 0 <= i < taken.len() implies #[trigger] addresses[i + 1]
            == url_with_pair(addresses[i], taken[i].0, taken[i].1) by {
            if i < n - 1 {
                assert(before[i + 1] == url_with_pair(
                    before[i],
                    pairs.take(n - 1)[i].0,
                    pairs.take(n - 1)[i].1,
                ));
            }
        }
        addresses
    }
}

/// Pairs that can each be added can all be added.
proof fn lemma_pairs_can_be_added(
    url: Url,
    pairs: Seq<(Seq<char>, Seq<char>)>,
    addresses: Seq<Url>,
    n: nat,
)
    requires
        n <= pairs.len(),
        grows_by(addresses, pairs),
        addresses[0] == url,
        forall|i: int|
            0 <= i < pairs.len() ==> pair_fits(
                #[trigger] addresses[i],
                pairs[i].0,
                pairs[i].1,
            ),
    ensures
        with_pairs(url, pairs, n) == Some(addresses[n as int]),
    decreases n,
{
    if n > 0 {
        lemma_pairs_can_be_added(url, pairs, addresses, (n - 1) as nat);
        assert(pair_fits(addresses[n - 1], pairs[n - 1].0, pairs[n - 1].1));
        assert(addresses[(n - 1) + 1] == url_with_pair(
            addresses[n - 1],
            pairs[n - 1].0,
            pairs[n - 1].1,
        ));
    }
}

/// A template came to a value.
pub open spec fn is_value(evaluation: Evaluation, value: Seq<char>) -> bool {
    match evaluation {
        Evaluation::Value { text } => text@ == value,
        _ => false,
    }
}

/// Templates that have all come to values, each under the name of its setting.
pub open spec fn are_values(
    resolved: Seq<(Seq<char>, Seq<char>)>,
    settings: Seq<(Seq<char>, Seq<char>)>,
    evaluations: Seq<Evaluation>,
) -> bool {
    &&& resolved.len() == settings.len()
    &&& forall|i: int|
        0 <= i < settings.len() ==> (#[trigger] resolved[i]).0 == settings[i].0 && is_value(
            evaluations[i],
            resolved[i].1,
        )
}

/// The first query parameters come to values exactly where each of them does.
proof fn lemma_query_is_resolved(
    params: Seq<(Seq<char>, Seq<char>)>,
    evaluations: Seq<Evaluation>,
    n: nat,
)
    requires
        n <= params.len(),
    ensures
        query_of(params, evaluations, n) matches Ok(resolved) ==> are_values(
            resolved,
            params.take(n as int),
            evaluations,
        ),
        (forall|i: int| 0 <= i < n ==> #[trigger] evaluations[i] is Value) ==> query_of(
            params,
            evaluations,
            n,
        ) is Ok,
    decreases n,
{
    if n > 0 {
        lemma_query_is_resolved(params, evaluations, (n - 1) as nat);
        if let Ok(resolved) = query_of(params, evaluations, n) {
            let before = query_of(params, evaluations, (n - 1) as nat)->Ok_0;
            let settings = params.take(n as int);
            assert forall|i: int| 0 <= i < settings.len() implies (#[trigger] resolved[i]).0
                == settings[i].0 && is_value(evaluations[i], resolved[i].1) by {
                if i < n - 1 {
                    assert(before[i] == resolved[i]);
                    assert(params.take(n - 1)[i] == settings[i]);
                }
            }
        }
        if forall|i: int| 0 <= i < n ==> #[trigger] evaluations[i] is Value {
            assert(evaluations[n - 1] is Value);
        }
    }
}

/// Two lists of values of the same templates are the same.
proof fn lemma_values_are_one(
    a: Seq<(Seq<char>, Seq<char>)>,
    b: Seq<(Seq<char>, Seq<char>)>,
    settings: Seq<(Seq<char>, Seq<char>)>,
    evaluations: Seq<Evaluation>,
)
    requires
        are_values(a, settings, evaluations),
        are_values(b, settings, evaluations),
    ensures
        a == b,
{
    assert forall|i: int| 0 <= i < a.len() implies a[i] == b[i] by {
        assert(a[i].0 == settings[i].0 && is_value(evaluations[i], a[i].1));
        assert(b[i].0 == settings[i].0 && is_value(evaluations[i], b[i].1));
    }
    assert(a =~= b);
}

/// A request goes to the binding's address joined with the value of the path,
/// at the same origin, with every query parameter of the configuration at the
/// end of its query, under its name, with its value and in order, whatever the
/// verb.
pub proof fn law_request_has_every_query_parameter(
    config: ConfigView,
    base_url: Seq<char>,
    evaluations: Evaluations,
    plan: PlanView,
)
    requires
        planned(config, base_url, evaluations) == Some(Ok::<PlanView, BackendErrorView>(plan)),
    ensures
        parsed_url(base_url) is Ok,
        evaluations.path is Value,
        joined_url(parsed_url(base_url)->Ok_0, evaluations.path->text@) is Ok,
        same_origin(
            joined_url(parsed_url(base_url)->Ok_0, evaluations.path->text@)->Ok_0,
            parsed_url(base_url)->Ok_0,
        ),
        exists|pairs: Seq<(Seq<char>, Seq<char>)>, addresses: Seq<Url>|
            {
                &&& are_values(pairs, config.query_params, evaluations.query_params@)
                &&& #[trigger] grows_by(addresses, pairs)
                &&& addresses[0] == joined_url(
                    parsed_url(base_url)->Ok_0,
                    evaluations.path->text@,
                )->Ok_0
                &&& addresses.last() == plan.url
            },
{
    let base = parsed_url(base_url)->Ok_0;
    let path = evaluations.path->text@;
    law_path_stays_at_the_origin(base, path);
    let n = config.query_params.len();
    lemma_query_is_resolved(config.query_params, evaluations.query_params@, n);
    assert(config.query_params.take(n as int) =~= config.query_params);
    let pairs = query_of(config.query_params, evaluations.query_params@, n)->Ok_0;
    let url = joined_url(base, path)->Ok_0;
    let addresses = lemma_pairs_are_added(url, pairs, pairs.len());
    assert(pairs.take(pairs.len() as int) =~= pairs);
    assert(grows_by(addresses, pairs));
}

/// The template of a header came to a value.
pub open spec fn is_header_value(evaluation: HeaderEvaluation, value: Seq<char>) -> bool {
    match evaluation {
        HeaderEvaluation::Evaluated { evaluation } => is_value(evaluation, value),
        HeaderEvaluation::Rejected { .. } => false,
    }
}

/// Templates of headers that have all come to values, each under its name.
pub open spec fn are_header_values(
    resolved: Seq<(Seq<char>, Seq<char>)>,
    headers: Seq<(Seq<char>, Seq<char>)>,
    evaluations: Seq<HeaderEvaluation>,
) -> bool {
    &&& resolved.len() == headers.len()
    &&& forall|i: int|
        0 <= i < headers.len() ==> (#[trigger] resolved[i]).0 == headers[i].0 && is_header_value(
            evaluations[i],
            resolved[i].1,
        )
}

/// The first headers come to values exactly where each of them does.
proof fn lemma_headers_are_resolved(
    headers: Seq<(Seq<char>, Seq<char>)>,
    evaluations: Seq<HeaderEvaluation>,
    n: nat,
)
    requires
        n <= headers.len(),
    ensures
        headers_of(headers, evaluations, n) matches Ok(resolved) ==> are_header_values(
            resolved,
            headers.take(n as int),
            evaluations,
        ),
        (forall|i: int|
            0 <= i < n ==> (#[trigger] evaluations[i] matches HeaderEvaluation::Evaluated {
                evaluation: Evaluation::Value { .. },
            })) ==> headers_of(headers, evaluations, n) is Ok,
    decreases n,
{
    if n > 0 {
        lemma_headers_are_resolved(headers, evaluations, (n - 1) as nat);
        if let Ok(resolved) = headers_of(headers, evaluations, n) {
            let before = headers_of(headers, evaluations, (n - 1) as nat)->Ok_0;
            let settings = headers.take(n as int);
            assert forall|i: int| 0 <= i < settings.len() implies (#[trigger] resolved[i]).0
                == settings[i].0 && is_header_value(evaluations[i], resolved[i].1) by {
                if i < n - 1 {
                    assert(before[i] == resolved[i]);
                    assert(headers.take(n - 1)[i] == settings[i]);
                }
            }
        }
        if forall|i: int|
            0 <= i < n ==> (#[trigger] evaluations[i] matches HeaderEvaluation::Evaluated {
                evaluation: Evaluation::Value { .. },
            }) {
            assert(evaluations[n - 1] matches HeaderEvaluation::Evaluated {
                evaluation: Evaluation::Value { .. },
            });
        }
    }
}

/// The headers that no endpoint gets to set are these, in any case; `accept`
/// and `content-type` are its own as long as it sends no body.
pub proof fn law_protected_headers(name: Seq<char>, other: Seq<char>, has_body: bool)
    ensures
        is_protected_header(name, false) <==> {
            ||| same_ignoring_case(name, "host"@)
            ||| same_ignoring_case(name, "connection"@)
            ||| same_ignoring_case(name, "content-length"@)
            ||| same_ignoring_case(name, "forwarded"@)
            ||| same_ignoring_case(name, "via"@)
            ||| same_ignoring_case(name, "x-real-ip"@)
            ||| same_ignoring_case(name, "x-request-id"@)
            ||| exists|beginning: Seq<char>, rest: Seq<char>|
                name == #[trigger] (beginning + rest) && same_ignoring_case(
                    beginning,
                    "x-forwarded-"@,
                )
        },
        is_protected_header(name, true) <==> is_protected_header(name, false)
            || same_ignoring_case(name, "accept"@) || same_ignoring_case(name, "content-type"@),
        same_ignoring_case(name, other) ==> is_protected_header(name, has_body)
            == is_protected_header(other, has_body),
{
    let mark = "x-forwarded-"@;
    reveal_strlit("x-forwarded-");
    assert(lowered(mark) =~= mark);
    if stands_at(lowered(name), mark, 0) {
        let beginning = name.take(mark.len() as int);
        let rest = name.skip(mark.len() as int);
        assert(name =~= beginning + rest);
        assert(lowered(beginning) =~= lowered(name).subrange(0, mark.len() as int));
        assert(same_ignoring_case(beginning, mark));
    }
    if exists|beginning: Seq<char>, rest: Seq<char>|
        name == #[trigger] (beginning + rest) && same_ignoring_case(beginning, mark) {
        let (beginning, rest) = choose|beginning: Seq<char>, rest: Seq<char>|
            name == #[trigger] (beginning + rest) && same_ignoring_case(beginning, mark);
        assert(lowered(beginning).len() == beginning.len());
        assert(lowered(name).subrange(0, mark.len() as int) =~= lowered(beginning));
    }
}

/// A request has every header of the configuration that is not protected, under
/// its name, with its value and in order, and no other.
pub proof fn law_request_has_every_free_header(
    config: ConfigView,
    base_url: Seq<char>,
    evaluations: Evaluations,
    plan: PlanView,
)
    requires
        planned(config, base_url, evaluations) == Some(Ok::<PlanView, BackendErrorView>(plan)),
    ensures
        exists|resolved: Seq<(Seq<char>, Seq<char>)>, at: Seq<int>|
            {
                &&& are_header_values(resolved, config.headers, evaluations.headers@)
                &&& #[trigger] taken_from(plan.headers, resolved, at)
                &&& forall|i: int|
                    0 <= i < config.headers.len() ==> (#[trigger] at.contains(i)
                        <==> !is_protected_header(config.headers[i].0, plan.body is Some))
            },
{
    let n = config.headers.len();
    lemma_headers_are_resolved(config.headers, evaluations.headers@, n);
    assert(config.headers.take(n as int) =~= config.headers);
    let resolved = headers_of(config.headers, evaluations.headers@, n)->Ok_0;
    let has_body = plan.body is Some;
    let goes_on = |header: (Seq<char>, Seq<char>)| !is_protected_header(header.0, has_body);
    let at = lemma_filter_takes(resolved, goes_on);
    assert forall|i: int| 0 <= i < config.headers.len() implies (#[trigger] at.contains(i)
        <==> !is_protected_header(config.headers[i].0, has_body)) by {
        assert(resolved[i].0 == config.headers[i].0);
        assert(at.contains(i) <==> goes_on(resolved[i]));
    }
    assert(taken_from(plan.headers, resolved, at));
}

/// A request has the verb of the configuration and reads the reply with its
/// JSONPath. A POST with a template sends what the template came to as its
/// body, read as JSON; no other request sends a body.
pub proof fn law_request_has_verb_path_and_body(
    config: ConfigView,
    base_url: Seq<char>,
    evaluations: Evaluations,
    plan: PlanView,
)
    requires
        planned(config, base_url, evaluations) == Some(Ok::<PlanView, BackendErrorView>(plan)),
    ensures
        plan.method == config.method,
        !cuts_escape(config.response_path) ==> parsed_path(config.response_path) == Ok::<
            JsonPath,
            Seq<char>,
        >(plan.response_path),
        config.method == HttpBackendMethod::Get || config.body_template is None
            ==> plan.body is None,
        config.method == HttpBackendMethod::Post && config.body_template is Some ==> {
            &&& evaluations.body->0 matches Evaluation::Value { text }
            &&& parsed_json(encode_utf8(text@)) matches Ok(json)
            &&& plan.body == Some(json)
        },
{
}

/// A request is planned wherever nothing stands in its way: the JSONPath can be
/// read, every template came to a value, the address can be parsed and joined
/// at its origin, each pair fits into it, and the body of a POST is JSON.
pub proof fn law_request_is_planned(
    config: ConfigView,
    base_url: Seq<char>,
    evaluations: Evaluations,
    pairs: Seq<(Seq<char>, Seq<char>)>,
    addresses: Seq<Url>,
)
    requires
        parsed_path(closed_path(config.response_path)) is Ok,
        evaluations.path is Value,
        parsed_url(base_url) is Ok,
        joined_url(parsed_url(base_url)->Ok_0, evaluations.path->text@) matches Ok(target)
            && same_origin(target, parsed_url(base_url)->Ok_0) && addresses[0] == target,
        are_values(pairs, config.query_params, evaluations.query_params@),
        grows_by(addresses, pairs),
        forall|i: int|
            0 <= i < pairs.len() ==> pair_fits(
                #[trigger] addresses[i],
                pairs[i].0,
                pairs[i].1,
            ),
        forall|i: int|
            0 <= i < config.headers.len() ==> (
            #[trigger] evaluations.headers@[i] matches HeaderEvaluation::Evaluated {
                evaluation: Evaluation::Value { .. },
            }),
        config.method == HttpBackendMethod::Post && config.body_template is Some ==> (
        evaluations.body->0 matches Evaluation::Value { text } && parsed_json(
            encode_utf8(text@),
        ) is Ok),
    ensures
        planned(config, base_url, evaluations) matches Some(Ok(plan)) && plan.url
            == addresses.last(),
{
    let n = config.query_params.len();
    let base = parsed_url(base_url)->Ok_0;
    law_path_stays_at_the_origin(base, evaluations.path->text@);
    lemma_query_is_resolved(config.query_params, evaluations.query_params@, n);
    assert(config.query_params.take(n as int) =~= config.query_params);
    assert forall|i: int| 0 <= i < n implies #[trigger] evaluations.query_params@[i] is Value by {
        assert(pairs[i].0 == config.query_params[i].0);
    }
    let resolved = query_of(config.query_params, evaluations.query_params@, n)->Ok_0;
    lemma_values_are_one(resolved, pairs, config.query_params, evaluations.query_params@);
    lemma_pairs_can_be_added(addresses[0], pairs, addresses, pairs.len());
    lemma_headers_are_resolved(config.headers, evaluations.headers@, config.headers.len());
}

/// A completion is refused for the first thing that stands in its way: a
/// JSONPath that cannot be read, then the path, then the address of the
/// binding, then the address of the endpoint.
pub proof fn law_first_refusal_is_told(
    config: ConfigView,
    base_url: Seq<char>,
    evaluations: Evaluations,
)
    ensures
        ({
            let plan = planned(config, base_url, evaluations);
            let path_is_read = parsed_path(closed_path(config.response_path)) is Ok;
            &&& parsed_path(closed_path(config.response_path)) matches Err(message) ==> plan
                == Some(
                Err::<PlanView, BackendErrorView>(
                    BackendErrorView::InvalidSpec(
                        "variable_completions.config.response_path: "@ + message,
                    ),
                ),
            )
            &&& path_is_read && evaluations.path !is Value ==> plan == Some(
                Err::<PlanView, BackendErrorView>(value_of(evaluations.path, "path"@)->Err_0),
            )
            &&& path_is_read && evaluations.path is Value ==> (
            parsed_url(base_url) matches Err(message) ==> plan == Some(
                Err::<PlanView, BackendErrorView>(
                    BackendErrorView::InvalidSpec(
                        "HTTP binding base URL is not parseable: "@ + message,
                    ),
                ),
            ))
            &&& path_is_read && evaluations.path is Value && parsed_url(base_url) is Ok ==> (
            completion_url(
                parsed_url(base_url)->Ok_0,
                evaluations.path->text@,
            ) matches Err(error) ==> plan == Some(Err::<PlanView, BackendErrorView>(error)))
        }),
{
}

/// The query is refused for its first parameter without a value.
proof fn lemma_first_bad_parameter(
    params: Seq<(Seq<char>, Seq<char>)>,
    evaluations: Seq<Evaluation>,
    i: int,
)
    requires
        0 <= i < params.len(),
        forall|j: int| 0 <= j < i ==> #[trigger] evaluations[j] is Value,
        evaluations[i] !is Value,
    ensures
        query_of(params, evaluations, params.len()) == Err::<
            Seq<(Seq<char>, Seq<char>)>,
            BackendErrorView,
        >(value_of(evaluations[i], "query_params['"@ + params[i].0 + "']"@)->Err_0),
{
    lemma_query_is_resolved(params, evaluations, i as nat);
    assert(query_of(params, evaluations, (i + 1) as nat) is Err);
    lemma_query_refused(params, evaluations, (i + 1) as nat, params.len());
}

/// The headers are refused for the first one without a value.
proof fn lemma_first_bad_endpoint_header(
    headers: Seq<(Seq<char>, Seq<char>)>,
    evaluations: Seq<HeaderEvaluation>,
    i: int,
)
    requires
        0 <= i < headers.len(),
        forall|j: int|
            0 <= j < i ==> (#[trigger] evaluations[j] matches HeaderEvaluation::Evaluated {
                evaluation: Evaluation::Value { .. },
            }),
        !(evaluations[i] matches HeaderEvaluation::Evaluated {
            evaluation: Evaluation::Value { .. },
        }),
    ensures
        headers_of(headers, evaluations, headers.len()) == Err::<
            Seq<(Seq<char>, Seq<char>)>,
            BackendErrorView,
        >(header_value_of(evaluations[i], headers[i].0)->Err_0),
{
    lemma_headers_are_resolved(headers, evaluations, i as nat);
    assert(headers_of(headers, evaluations, (i + 1) as nat) is Err);
    lemma_headers_refused(headers, evaluations, (i + 1) as nat, headers.len());
}

/// An endpoint whose address is found is refused for the first of its query
/// parameters without a value, and the refusal names the parameter.
pub proof fn law_first_bad_parameter_is_told(
    config: ConfigView,
    base_url: Seq<char>,
    evaluations: Evaluations,
    i: int,
)
    requires
        parsed_path(closed_path(config.response_path)) is Ok,
        evaluations.path is Value,
        parsed_url(base_url) is Ok,
        completion_url(parsed_url(base_url)->Ok_0, evaluations.path->text@) is Ok,
        0 <= i < config.query_params.len(),
        forall|j: int| 0 <= j < i ==> #[trigger] evaluations.query_params@[j] is Value,
        evaluations.query_params@[i] !is Value,
    ensures
        planned(config, base_url, evaluations) == Some(
            Err::<PlanView, BackendErrorView>(
                value_of(
                    evaluations.query_params@[i],
                    "query_params['"@ + config.query_params[i].0 + "']"@,
                )->Err_0,
            ),
        ),
{
    lemma_first_bad_parameter(config.query_params, evaluations.query_params@, i);
}

/// An endpoint whose address and query are found is refused for the first of
/// its headers without a value that can stand in one; without such a header, it
/// is refused where the body of a POST has no value or is no JSON.
pub proof fn law_bad_header_and_body_are_told(
    config: ConfigView,
    base_url: Seq<char>,
    evaluations: Evaluations,
    i: int,
)
    requires
        parsed_path(closed_path(config.response_path)) is Ok,
        target_of(config, base_url, evaluations) matches Ok(Some(_)),
        0 <= i <= config.headers.len(),
        forall|j: int|
            0 <= j < i ==> (
            #[trigger] evaluations.headers@[j] matches HeaderEvaluation::Evaluated {
                evaluation: Evaluation::Value { .. },
            }),
    ensures
        i < config.headers.len() && !(
        evaluations.headers@[i] matches HeaderEvaluation::Evaluated {
            evaluation: Evaluation::Value { .. },
        }) ==> planned(config, base_url, evaluations) == Some(
            Err::<PlanView, BackendErrorView>(
                header_value_of(evaluations.headers@[i], config.headers[i].0)->Err_0,
            ),
        ),
        i == config.headers.len() && config.method == HttpBackendMethod::Post
            && config.body_template is Some && evaluations.body->0 !is Value ==> planned(
            config,
            base_url,
            evaluations,
        ) == Some(
            Err::<PlanView, BackendErrorView>(
                value_of(evaluations.body->0, "body_template"@)->Err_0,
            ),
        ),
        i == config.headers.len() && config.method == HttpBackendMethod::Post
            && config.body_template is Some ==> (
        evaluations.body->0 matches Evaluation::Value { text } ==> (parsed_json(
            encode_utf8(text@),
        ) matches Err(message) ==> planned(config, base_url, evaluations) == Some(
            Err::<PlanView, BackendErrorView>(
                BackendErrorView::InvalidSpec(
                    "body_template did not render to valid JSON: "@ + message,
                ),
            ),
        ))),
{
    if i < config.headers.len() {
        if !(evaluations.headers@[i] matches HeaderEvaluation::Evaluated {
            evaluation: Evaluation::Value { .. },
        }) {
            lemma_first_bad_endpoint_header(config.headers, evaluations.headers@, i);
        }
    } else {
        lemma_headers_are_resolved(config.headers, evaluations.headers@, config.headers.len());
    }
}

/// The candidates among two lists of matches are those of the first and then
/// those of the second. A match that is a string is one candidate, an array
/// holds the strings of its own, and nothing else counts.
pub proof fn law_candidates_of_every_match(
    a: Seq<JsonView>,
    b: Seq<JsonView>,
    text: Seq<char>,
    items: Seq<JsonView>,
    other: JsonView,
)
    ensures
        candidates(Seq::<JsonView>::empty()).len() == 0,
        candidates(a + b) == candidates(a) + candidates(b),
        candidates(seq![JsonView::Text(text)]) == seq![text],
        candidates(seq![JsonView::Items(items)]) == strings_among(items),
        other !is Text && other !is Items ==> candidates(seq![other]).len() == 0,
    decreases b.len(),
{
    let none = Seq::<JsonView>::empty();
    assert(seq![JsonView::Text(text)].drop_last() =~= none);
    assert(seq![JsonView::Items(items)].drop_last() =~= none);
    assert(seq![other].drop_last() =~= none);
    assert(candidates(none) =~= Seq::<Seq<char>>::empty());
    assert(candidates(seq![JsonView::Text(text)]) =~= seq![text]);
    assert(candidates(seq![JsonView::Items(items)]) =~= strings_among(items));
    if b.len() == 0 {
        assert(a + b =~= a);
        assert(candidates(b) =~= Seq::<Seq<char>>::empty());
        assert(candidates(a + b) =~= candidates(a) + candidates(b));
    } else {
        law_candidates_of_every_match(a, b.drop_last(), text, items, other);
        assert((a + b).drop_last() =~= a + b.drop_last());
        assert((a + b).last() == b.last());
        assert(candidates(a + b) =~= candidates(a) + candidates(b));
    }
}

/// Where every match is a string, the candidates are those strings: all of
/// them, in order.
pub proof fn law_every_matched_string_is_offered(found: Seq<JsonView>, strings: Seq<Seq<char>>)
    requires
        found.len() == strings.len(),
        forall|i: int| 0 <= i < found.len() ==> #[trigger] found[i] == JsonView::Text(strings[i]),
    ensures
        candidates(found) == strings,
    decreases found.len(),
{
    if found.len() > 0 {
        law_every_matched_string_is_offered(found.drop_last(), strings.drop_last());
        assert(found.last() == JsonView::Text(strings[found.len() - 1]));
        assert(strings.drop_last().push(strings.last()) =~= strings);
    } else {
        assert(strings =~= Seq::empty());
    }
}

/// A reply offers what the JSONPath finds in it, where it is JSON, and nothing
/// where it is not.
pub proof fn law_reply_offers_what_the_path_finds(
    path: JsonPath,
    body: Seq<u8>,
    strings: Seq<Seq<char>>,
)
    ensures
        parsed_json(body) matches Ok(document) ==> {
            let found = path_matches(path, document);
            &&& candidates_in(path, body) == candidates(found)
            &&& found.len() == strings.len() && (forall|i: int|
                0 <= i < found.len() ==> #[trigger] found[i] == JsonView::Text(strings[i]))
                ==> candidates_in(path, body) == strings
        },
        parsed_json(body) is Err ==> candidates_in(path, body).len() == 0,
{
    if let Ok(document) = parsed_json(body) {
        let found = path_matches(path, document);
        if found.len() == strings.len() && (forall|i: int|
            0 <= i < found.len() ==> #[trigger] found[i] == JsonView::Text(strings[i])) {
            law_every_matched_string_is_offered(found, strings);
        }
    }
}

/// A completion offers the candidates of a reply exactly where the status is of
/// the 200 class and the body could be read; what came instead is told as a
/// failed transport, with the reason.
pub proof fn law_completion_is_concluded(path: JsonPath, reply: CompletionReply)
    ensures
        reply matches CompletionReply::NoClient { error } ==> concluded(path, reply) == Err::<
            Seq<Seq<char>>,
            BackendErrorView,
        >(BackendErrorView::Transport("building HTTP completion client: "@ + error@)),
        reply matches CompletionReply::NotSent { error } ==> concluded(path, reply) == Err::<
            Seq<Seq<char>>,
            BackendErrorView,
        >(BackendErrorView::Transport("HTTP completion request failed: "@ + error@)),
        reply matches CompletionReply::Answered { status, status_text, body } ==> {
            &&& status / 100 != 2 ==> concluded(path, reply) == Err::<
                Seq<Seq<char>>,
                BackendErrorView,
            >(
                BackendErrorView::Transport(
                    "HTTP completion endpoint returned non-success status "@ + status_text@,
                ),
            )
            &&& status / 100 == 2 && (body matches Some(Ok(_))) ==> concluded(path, reply) == Ok::<
                Seq<Seq<char>>,
                BackendErrorView,
            >(candidates_in(path, body->0->Ok_0@))
            &&& status / 100 == 2 && (body matches Some(Err(_))) ==> concluded(path, reply)
                == Err::<Seq<Seq<char>>, BackendErrorView>(
                BackendErrorView::Transport(
                    "HTTP completion body read failed: "@ + body->0->Err_0@,
                ),
            )
        },
{
}

/// The JSONPath crate is given the text of the operator as it is, and with a
/// NUL behind it where an escape at its end is cut.
pub proof fn law_path_is_given_as_written(text: Seq<char>)
    ensures
        !cuts_escape(text) ==> closed_path(text) == text,
        cuts_escape(text) ==> closed_path(text) == text.push('\0'),
{
    reveal_strlit("\0");
    assert(text + "\0"@ =~= text.push('\0'));
}

/// A plan and an origin are told with each of their parts.
pub proof fn law_plan_is_told_whole(plan: CompletionPlan, origin: Origin)
    ensures
        plan@.response_path == plan.response_path,
        plan@.method == plan.method,
        plan@.url == plan.url,
        plan@.headers == pairs_view(plan.headers@),
        plan.body matches Some(body) ==> plan@.body == Some(body@),
        plan.body is None ==> plan@.body is None,
        origin@.scheme == origin.scheme@,
        origin@.host == text_of(origin.host),
        origin@.port == origin.port,
{
}

} // verus!
