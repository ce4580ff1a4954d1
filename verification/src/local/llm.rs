//! The models that the gateway serves, converted to a bind of their own.

use std::sync::Arc;

use vstd::prelude::*;
use vstd::string::*;

use crate::local::backends::{local_key, local_name, local_name_of};
use crate::local::conditional::{unconditional, LocalExplicitOrConditional, LocalRateLimitPolicy};
use crate::local::config::GatewayConfig;
use crate::local::error::{
    add_opt, first_refusal, lemma_first_refusal, load, load_refusal, loaded, one, ConfigError,
    Loaded,
};
use crate::local::listeners::{attach_policies, attached_policies, listener_target};
use crate::local::models::{llm_model_name_header_match, name_match, LLMRouteMatch, LocalLLMModels};
use crate::local::policies::{health_refusal, load_health};
use crate::local::split::{split_policies, FilterOrPolicy, LocalGatewayPolicy};
use crate::text::{
    decimal, join2, join3, join4, join5, lemma_views, opt_text, padded_decimal, texts, to_decimal,
    to_padded_decimal, views, Text,
};
use crate::types::agent::{
    header_views, prefix_match, Backend, BackendReference, BackendReferenceView, BackendView,
    BackendWithPolicies, BackendWithPoliciesView, Bind, BindProtocol, BindView, HeaderMatch,
    HeaderMatchView, HeaderOrPseudo, HeaderOrPseudoView, HeaderValueMatch, HeaderValueMatchView,
    Listener, ListenerName, ListenerNameView, ListenerProtocol, ListenerProtocolView, ListenerSet,
    ListenerTarget, ListenerTargetView, ListenerView, PathMatch, PolicyTarget, Route,
    RouteBackendReference, RouteBackendReferenceView, RouteBackendTarget, RouteBackendTargetView,
    RouteMatch, RouteMatchView, RouteName, RouteNameView, RouteView, SocketAddr, TargetedPolicy,
    TargetedPolicyView, TunnelProtocol, TypedResourceName, TypedResourceNameView,
};
use crate::types::llm;
use crate::types::llm::{
    group_view, route_texts, AIBackend, NamedAIProvider, NamedAIProviderView, RouteType,
};
use crate::types::policy::{
    always, first_of, pair_texts, BackendAuth, DirectResponse, HeaderModifier, HeaderModifierView,
    PolicyBody, PolicyId, PolicyIdView, RequestPolicy, RuleSet,
};
use crate::types::traffic::{
    BackendTrafficPolicy, BackendTrafficPolicyView, PolicyPhase, PolicyType, PolicyTypeView,
    TrafficPolicy, TrafficPolicyView,
};

verus! {

/// The port on which models are served where nothing is set.
pub const DEFAULT_LLM_PORT: u16 = 4000;

/// The header that holds the model of a request while the gateway chooses a route.
pub const MODEL_NAME_HEADER: &'static str = "x-gateway-model-name";

/// The expression of the model of a request: it is in the path of some requests, and in the body
/// of others.
pub const MODEL_NAME_EXPRESSION: &'static str = "\nrequest.path.endsWith(\":streamRawPredict\") || request.path.endsWith(\":rawPredict\") ?\nrequest.path.regexReplace(\"^.*/publishers/anthropic/models/(.+?):.*\", \"${1}\") :\njson(request.body).model\n";

/// The policies of the requests for models, before a model is selected.
#[derive(Debug)]
pub struct LocalLLMPolicy {
    pub gateway: LocalGatewayPolicy,
    /// Authorization policies for HTTP access.
    pub authorization: Option<Arc<RuleSet>>,
    /// Rate limit incoming requests. State is kept local.
    pub local_rate_limit: Vec<Arc<PolicyBody>>,
    /// Rate limit incoming requests. State is managed by a remote server.
    pub remote_rate_limit: Option<PolicyBody>,
}

/// The models that the gateway serves.
#[derive(Debug)]
pub struct LocalLLMConfig {
    pub port: Option<u16>,
    pub models: Vec<LocalLLMModels>,
    /// The policies of requests, before a model is selected.
    pub policies: Option<LocalLLMPolicy>,
}

/// What changes requests or responses.
#[derive(Debug)]
pub struct LocalTransform {
    pub metadata: Vec<(String, String)>,
    pub set: Vec<(String, String)>,
    pub add: Vec<(String, String)>,
    pub remove: Vec<String>,
    pub body: Option<String>,
}

/// A transformation, before it is compiled.
#[derive(Debug)]
pub struct LocalTransformationConfig {
    pub request: Option<LocalTransform>,
    pub response: Option<LocalTransform>,
}

/// A transformation that sets headers of requests to the values of expressions, and does nothing
/// else.
pub open spec fn sets_headers(config: LocalTransformationConfig, set: Seq<(Text, Text)>) -> bool {
    &&& config.response is None
    &&& match config.request {
        Some(t) => t.metadata@.len() == 0 && t.add@.len() == 0 && t.remove@.len() == 0
            && t.body is None && pair_texts(t.set@) == set,
        None => false,
    }
}

/// A transformation that sets headers of requests to the values of expressions, and does nothing
/// else.
pub fn set_headers(set: Vec<(String, String)>) -> (r: LocalTransformationConfig)
    ensures
        sets_headers(r, pair_texts(set@)),
{
    LocalTransformationConfig {
        request: Some(
            LocalTransform {
                metadata: Vec::new(),
                set,
                add: Vec::new(),
                remove: Vec::new(),
                body: None,
            },
        ),
        response: None,
    }
}

/// The transformation that keeps the model of a request in a header.
pub fn model_name_transformation() -> (r: LocalTransformationConfig)
    ensures
        sets_headers(r, seq![(MODEL_NAME_HEADER@, MODEL_NAME_EXPRESSION@)]),
{
    let set = vec![(MODEL_NAME_HEADER.to_owned(), MODEL_NAME_EXPRESSION.to_owned())];
    assert(pair_texts(set@) =~= seq![(MODEL_NAME_HEADER@, MODEL_NAME_EXPRESSION@)]);
    set_headers(set)
}

// ---------------------------------------------------------------------------------------------
// A bind with a single listener
// ---------------------------------------------------------------------------------------------

/// A bind with its routes, its policies and the backends that they need.
#[derive(Debug)]
pub struct ConvertedBind {
    pub bind: Bind,
    pub routes: Vec<Route>,
    pub policies: Vec<TargetedPolicy>,
    pub backends: Vec<BackendWithPolicies>,
}

/// What a [`ConvertedBind`] holds.
#[verifier::ext_equal]
pub struct ConvertedBindView {
    pub bind: BindView,
    pub routes: Seq<RouteView>,
    pub policies: Seq<TargetedPolicyView>,
    pub backends: Seq<BackendWithPoliciesView>,
}

impl View for ConvertedBind {
    type V = ConvertedBindView;

    open spec fn view(&self) -> ConvertedBindView {
        ConvertedBindView {
            bind: self.bind@,
            routes: views(self.routes@),
            policies: views(self.policies@),
            backends: views(self.backends@),
        }
    }
}

/// The key of the bind at a port.
pub open spec fn bind_key_of(port: u16) -> Text {
    "bind/"@ + decimal(port as nat)
}

/// The key of the bind at a port.
pub fn bind_key(port: u16) -> (r: String)
    ensures
        r@ == bind_key_of(port),
{
    join2("bind/", to_decimal(port as u64).as_str())
}

/// The listener of the gateway with the given name, for every host.
pub open spec fn named_listener(name: Text, gateway: ListenerTargetView) -> ListenerView {
    ListenerView {
        key: name,
        name: ListenerNameView {
            gateway_name: gateway.gateway_name,
            gateway_namespace: gateway.gateway_namespace,
            listener_name: name,
            listener_set: None,
        },
        hostname: "*"@,
        protocol: ListenerProtocolView::HTTP,
    }
}

/// The bind at a port of which the only listener has the given name.
pub open spec fn single_bind(
    config: GatewayConfig,
    port: u16,
    name: Text,
    gateway: ListenerTargetView,
) -> BindView {
    BindView {
        key: bind_key_of(port),
        address: SocketAddr::any_of(config.ipv6_enabled, port),
        protocol: BindProtocol::http,
        tunnel_protocol: TunnelProtocol::Direct,
        listeners: Map::<Text, ListenerView>::empty().insert(name, named_listener(name, gateway)),
    }
}

/// The bind at a port of which the only listener has the given name, and the name of the listener.
pub fn make_single_bind(
    config: &GatewayConfig,
    port: u16,
    name: &str,
    gateway: &ListenerTarget,
) -> (r: (Bind, ListenerName))
    ensures
        r.0.wf(),
        r.0@ == single_bind(*config, port, name@, gateway@),
        r.1@ == named_listener(name@, gateway@).name,
{
    let listener_name = ListenerName {
        gateway_name: gateway.gateway_name.clone(),
        gateway_namespace: gateway.gateway_namespace.clone(),
        listener_name: name.to_owned(),
        listener_set: None,
    };
    let listener = Listener {
        key: name.to_owned(),
        name: listener_name.copy(),
        hostname: "*".to_owned(),
        protocol: ListenerProtocol::HTTP,
    };
    assert(listener@ == named_listener(name@, gateway@));
    let mut listeners = ListenerSet::new();
    listeners.insert(Arc::new(listener));
    let bind = Bind {
        key: bind_key(port),
        address: SocketAddr::any(config.ipv6_enabled, port),
        protocol: BindProtocol::http,
        tunnel_protocol: TunnelProtocol::Direct,
        listeners,
    };
    (bind, listener_name)
}

// ---------------------------------------------------------------------------------------------
// The list of models
// ---------------------------------------------------------------------------------------------

/// A hexadecimal digit.
pub open spec fn hex_digit(n: int) -> char {
    if n < 10 {
        (48 + n) as char
    } else {
        (87 + n) as char
    }
}

/// A character as JSON writes it between quotes: quotes, backslashes and control characters are
/// escaped.
pub open spec fn json_escape(c: char) -> Text {
    if c == '"' {
        seq!['\\', '"']
    } else if c == '\\' {
        seq!['\\', '\\']
    } else if c as int == 8 {
        seq!['\\', 'b']
    } else if c as int == 9 {
        seq!['\\', 't']
    } else if c as int == 10 {
        seq!['\\', 'n']
    } else if c as int == 12 {
        seq!['\\', 'f']
    } else if c as int == 13 {
        seq!['\\', 'r']
    } else if (c as int) < 32 {
        seq!['\\', 'u', '0', '0', hex_digit(c as int / 16), hex_digit(c as int % 16)]
    } else {
        seq![c]
    }
}

/// A text as JSON writes it between quotes.
pub open spec fn json_escaped(text: Text) -> Text
    decreases text.len(),
{
    if text.len() == 0 {
        Seq::empty()
    } else {
        json_escaped(text.drop_last()) + json_escape(text.last())
    }
}

/// A text as JSON writes it.
pub open spec fn json_quoted(text: Text) -> Text {
    seq!['"'] + json_escaped(text) + seq!['"']
}

/// `serde_json::to_string` on text: the text in quotes, with quotes, backslashes and control
/// characters escaped. It does not fail on text.
#[verifier::external_body]
fn quote_json(text: &str) -> (r: String)
    ensures
        r@ == json_quoted(text@),
{
    serde_json::to_string(text).unwrap()
}

/// A model in the list of models, as JSON.
pub open spec fn model_entry(created: u64, quoted: Text) -> Text {
    "{\"created\":"@ + decimal(created as nat) + ",\"id\":"@ + quoted
        + ",\"object\":\"model\",\"owned_by\":\"openai\"}"@
}

/// The models of a list, with commas between them.
pub open spec fn model_entries(created: u64, quoted: Seq<Text>) -> Text
    decreases quoted.len(),
{
    if quoted.len() == 0 {
        Seq::empty()
    } else if quoted.len() == 1 {
        model_entry(created, quoted[0])
    } else {
        model_entries(created, quoted.drop_last()) + ","@ + model_entry(created, quoted.last())
    }
}

/// The list of models, as JSON, given the names in quotes.
pub open spec fn model_list_of(created: u64, quoted: Seq<Text>) -> Text {
    "{\"data\":["@ + model_entries(created, quoted) + "],\"object\":\"list\"}"@
}

/// The list of models, as JSON, given the names in quotes.
pub fn quoted_model_list(created: u64, quoted: &Vec<String>) -> (r: String)
    ensures
        r@ == model_list_of(created, texts(quoted@)),
{
    let ghost all = texts(quoted@);
    let mut entries = String::new();
    assert(entries@ =~= model_entries(created, all.take(0)));
    let mut i: usize = 0;
    while i < quoted.len()
        invariant
            i <= quoted@.len(),
            all == texts(quoted@),
            entries@ == model_entries(created, all.take(i as int)),
        decreases quoted@.len() - i,
    {
        let digits = to_decimal(created);
        let entry = join5(
            "{\"created\":",
            digits.as_str(),
            ",\"id\":",
            quoted[i].as_str(),
            ",\"object\":\"model\",\"owned_by\":\"openai\"}",
        );
        assert(entry@ == model_entry(created, all[i as int]));
        let ghost before = entries@;
        if i > 0 {
            entries.append(",");
        }
        entries.append(entry.as_str());
        proof {
            let next = all.take(i as int + 1);
            assert(next.drop_last() =~= all.take(i as int));
            assert(next.last() == all[i as int]);
            if i == 0 {
                assert(before =~= Seq::<char>::empty());
                assert(entries@ =~= entry@);
                assert(next[0] == all[0]);
            }
        }
        i = i + 1;
    }
    assert(all.take(i as int) =~= all);
    join3("{\"data\":[", entries.as_str(), "],\"object\":\"list\"}")
}

/// The names of models as JSON writes them.
pub open spec fn quoted_names(models: Seq<LocalLLMModels>) -> Seq<Text> {
    models.map_values(|m: LocalLLMModels| json_quoted(m.name@))
}

fn model_list_body(created: u64, models: &Vec<LocalLLMModels>) -> (r: String)
    ensures
        r@ == model_list_of(created, quoted_names(models@)),
{
    let mut quoted: Vec<String> = Vec::new();
    let mut i: usize = 0;
    while i < models.len()
        invariant
            i <= models@.len(),
            quoted@.len() == i,
            forall|j: int|
                0 <= j < i ==> (#[trigger] quoted@[j])@ == json_quoted(models@[j].name@),
        decreases models@.len() - i,
    {
        quoted.push(quote_json(models[i].name.as_str()));
        i = i + 1;
    }
    assert(texts(quoted@) =~= quoted_names(models@));
    quoted_model_list(created, &quoted)
}

/// A name that the gateway makes up for a route.
pub open spec fn internal_route_name(name: Text) -> RouteNameView {
    RouteNameView { name, namespace: "internal"@, rule_name: None, kind: None }
}

/// A name that the gateway makes up for a route.
pub fn make_internal_route_name(name: String) -> (r: RouteName)
    ensures
        r@ == internal_route_name(name@),
{
    RouteName { name, namespace: "internal".to_owned(), rule_name: None, kind: None }
}

/// The route that answers with the list of models.
pub open spec fn model_list_route_of(body: Text) -> RouteView {
    RouteView {
        key: "llm:admin:model-list"@,
        service_key: None,
        name: internal_route_name("admin:model-list"@),
        hostnames: Seq::empty(),
        matches: seq![prefix_match("/v1/models"@), prefix_match("/models"@)],
        inline_policies: seq![
            TrafficPolicyView::ResponseHeaderModifier(
                HeaderModifierView {
                    add: Seq::empty(),
                    set: seq![("Content-Type"@, "application/json"@)],
                    remove: Seq::empty(),
                },
            ),
            TrafficPolicyView::DirectResponse(always((body, 200u16))),
        ],
        backends: Seq::empty(),
    }
}

fn model_list_route(body: String) -> (r: Route)
    ensures
        r@ == model_list_route_of(body@),
{
    let headers = HeaderModifier {
        add: Vec::new(),
        set: vec![("Content-Type".to_owned(), "application/json".to_owned())],
        remove: Vec::new(),
    };
    assert(headers@ =~= (HeaderModifierView {
        add: Seq::empty(),
        set: seq![("Content-Type"@, "application/json"@)],
        remove: Seq::empty(),
    }));
    let ghost text = body@;
    let matches = vec![RouteMatch::prefix("/v1/models"), RouteMatch::prefix("/models")];
    assert(views(matches@) =~= seq![prefix_match("/v1/models"@), prefix_match("/models"@)]);
    let inline_policies = vec![
        TrafficPolicy::ResponseHeaderModifier(Arc::new(headers)),
        TrafficPolicy::DirectResponse(unconditional(DirectResponse { body, status: 200 })),
    ];
    assert(views(inline_policies@) =~= model_list_route_of(text).inline_policies);
    let r = Route {
        key: "llm:admin:model-list".to_owned(),
        service_key: None,
        name: make_internal_route_name("admin:model-list".to_owned()),
        hostnames: Vec::new(),
        matches,
        inline_policies,
        backends: Vec::new(),
    };
    assert(r@ =~= model_list_route_of(text));
    r
}

// ---------------------------------------------------------------------------------------------
// Models
// ---------------------------------------------------------------------------------------------

/// The name of the backend of the model at a place. The same model can stand at several places.
pub open spec fn model_backend_key(name: Text, idx: int) -> Text {
    "llm:model:"@ + name + ":"@ + decimal(idx as nat)
}

/// The key of the route of the model at a place. The place comes first, so that of two routes that
/// match equally well the one that is listed first is preferred.
pub open spec fn model_route_key(name: Text, idx: int) -> Text {
    "llm:model:"@ + padded_decimal(idx as nat, 6) + ":"@ + name
}

/// Why a model is refused, if it is.
pub open spec fn model_refusals(default_tls: Loaded<PolicyBody>) -> spec_fn(
    int,
    LocalLLMModels,
) -> Option<Text> {
    |i: int, m: LocalLLMModels|
        first_of(
            m.base_refusal(),
            first_of(
                m.provider_refusal(),
                first_of(
                    load_refusal(m.tls(default_tls)),
                    first_of(
                        health_refusal(m.health),
                        match name_match(m.name@) {
                            Err(e) => Some(e),
                            Ok(_) => None,
                        },
                    ),
                ),
            ),
        )
}

/// The changes to the headers of requests to a model: those that are set, and the header that holds
/// the name of the model is dropped.
pub open spec fn model_request_headers(m: LocalLLMModels) -> HeaderModifierView {
    match m.request_headers {
        Some(h) => HeaderModifierView { remove: h@.remove.push(MODEL_NAME_HEADER@), ..h@ },
        None => HeaderModifierView {
            add: Seq::empty(),
            set: Seq::empty(),
            remove: seq![MODEL_NAME_HEADER@],
        },
    }
}

/// How requests to a model are handled.
pub open spec fn model_policy(m: LocalLLMModels) -> llm::PolicyView {
    llm::PolicyView {
        defaults: m.defaults,
        overrides: m.overrides,
        transformations: m.transformation,
        prompt_guard: m.guardrails,
        ..llm::Policy::empty_view()
    }
}

/// The policies of the backend of a model, in the order in which they are attached.
pub open spec fn model_backend_rules(m: LocalLLMModels, default_tls: Loaded<PolicyBody>) -> Seq<
    BackendTrafficPolicyView,
> {
    Seq::<BackendTrafficPolicyView>::empty() + one(
        match loaded(m.tls(default_tls)) {
            Some(p) => Some(BackendTrafficPolicy::BackendTLS(p)@),
            None => None,
        },
    ) + one(
        match m.auth {
            Some(p) => Some(BackendTrafficPolicy::BackendAuth(p)@),
            None => None,
        },
    ) + one(
        match m.backend_tunnel {
            Some(p) => Some(BackendTrafficPolicy::Tunnel(p)@),
            None => None,
        },
    ) + one(
        Some(BackendTrafficPolicyView::RequestHeaderModifier(model_request_headers(m))),
    ) + one(
        match m.response_headers {
            Some(p) => Some(BackendTrafficPolicy::ResponseHeaderModifier(p)@),
            None => None,
        },
    ) + one(
        match loaded(m.health) {
            Some(p) => Some(BackendTrafficPolicy::Health(p)@),
            None => None,
        },
    ) + one(Some(BackendTrafficPolicyView::AI(model_policy(m))))
}

/// The policies of the provider of a model: the key that is sent to it, if there is one.
pub open spec fn model_provider_rules(m: LocalLLMModels) -> Seq<BackendTrafficPolicyView> {
    one(
        match m.params.api_key {
            Some(k) => Some(
                BackendTrafficPolicy::BackendAuth(
                    Arc::new(BackendAuth::Key { value: k.value, location: None }),
                )@,
            ),
            None => None,
        },
    )
}

/// The provider of a model.
pub open spec fn model_provider(m: LocalLLMModels) -> NamedAIProviderView {
    NamedAIProviderView {
        name: m.name@,
        provider: m.provided(),
        host_override: m.host(),
        path_override: opt_text(m.params.path_override),
        path_prefix: m.prefix(),
        tokenize: m.params.tokenize,
        inline_policies: model_provider_rules(m),
    }
}

/// The backend of the model at a place.
pub open spec fn model_backend(
    m: LocalLLMModels,
    idx: int,
    default_tls: Loaded<PolicyBody>,
) -> BackendWithPoliciesView {
    BackendWithPoliciesView {
        backend: BackendView::AI(
            local_name_of(model_backend_key(m.name@, idx)),
            seq![seq![(m.name@, model_provider(m))]],
        ),
        inline_policies: model_backend_rules(m, default_tls),
    }
}

/// The header of a request for a model.
pub open spec fn model_header(value: HeaderValueMatchView) -> HeaderMatchView {
    HeaderMatchView { name: HeaderOrPseudoView::Header(MODEL_NAME_HEADER@), value }
}

/// Requests for a model that hold the headers of a condition.
pub open spec fn model_match(
    headers: Seq<HeaderMatchView>,
    value: HeaderValueMatchView,
) -> RouteMatchView {
    RouteMatchView { headers: headers.push(model_header(value)), ..prefix_match("/"@) }
}

/// The requests for a model: those that hold the headers of one of its conditions. Without a
/// condition, all that name it.
pub open spec fn model_matches(
    conditions: Seq<LLMRouteMatch>,
    value: HeaderValueMatchView,
) -> Seq<RouteMatchView> {
    if conditions.len() == 0 {
        seq![model_match(Seq::empty(), value)]
    } else {
        conditions.map_values(|c: LLMRouteMatch| model_match(header_views(c.headers@), value))
    }
}

/// The API of each path of a model.
pub open spec fn model_paths() -> Seq<(Text, RouteType)> {
    seq![
        ("/v1/chat/completions"@, RouteType::Completions),
        ("/v1/messages"@, RouteType::Messages),
        (":rawPredict"@, RouteType::Messages),
        (":streamRawPredict"@, RouteType::Messages),
        ("/v1/responses"@, RouteType::Responses),
        ("/v1/images/generations"@, RouteType::Detect),
        ("/v1/images/edits"@, RouteType::Detect),
        ("/v1/images/variations"@, RouteType::Detect),
        ("/v1/responses/compact"@, RouteType::Detect),
        ("/v1/embeddings"@, RouteType::Embeddings),
        ("*"@, RouteType::Passthrough),
    ]
}

/// The route of the model at a place.
pub open spec fn model_route(m: LocalLLMModels, idx: int) -> RouteView {
    RouteView {
        key: model_route_key(m.name@, idx),
        service_key: None,
        name: internal_route_name("model:"@ + m.name@),
        hostnames: Seq::empty(),
        matches: model_matches(m.matches@, name_match(m.name@)->Ok_0),
        inline_policies: seq![
            TrafficPolicyView::AI(
                llm::PolicyView { routes: model_paths(), ..llm::Policy::empty_view() },
            ),
        ],
        backends: seq![
            RouteBackendReferenceView {
                weight: 1,
                target: RouteBackendTargetView::Backend(
                    BackendReferenceView::Backend(local_key(model_backend_key(m.name@, idx))),
                ),
                inline_policies: Seq::empty(),
            },
        ],
    }
}

fn make_request_headers(request_headers: Option<HeaderModifier>, Ghost(m): Ghost<LocalLLMModels>)
    -> (r: HeaderModifier)
    requires
        m.request_headers == request_headers,
    ensures
        r@ == model_request_headers(m),
{
    match request_headers {
        Some(h) => {
            let ghost given = h@;
            let mut remove = h.remove;
            let ghost held = remove@;
            remove.push(MODEL_NAME_HEADER.to_owned());
            assert(texts(remove@) =~= texts(held).push(MODEL_NAME_HEADER@));
            let r = HeaderModifier { add: h.add, set: h.set, remove };
            assert(r@ =~= (HeaderModifierView {
                remove: given.remove.push(MODEL_NAME_HEADER@),
                ..given
            }));
            r
        },
        None => {
            let r = HeaderModifier {
                add: Vec::new(),
                set: Vec::new(),
                remove: vec![MODEL_NAME_HEADER.to_owned()],
            };
            assert(r@ =~= model_request_headers(m));
            r
        },
    }
}

fn make_model_paths() -> (r: Vec<(String, RouteType)>)
    ensures
        route_texts(r@) == model_paths(),
{
    let r = vec![
        ("/v1/chat/completions".to_owned(), RouteType::Completions),
        ("/v1/messages".to_owned(), RouteType::Messages),
        (":rawPredict".to_owned(), RouteType::Messages),
        (":streamRawPredict".to_owned(), RouteType::Messages),
        ("/v1/responses".to_owned(), RouteType::Responses),
        ("/v1/images/generations".to_owned(), RouteType::Detect),
        ("/v1/images/edits".to_owned(), RouteType::Detect),
        ("/v1/images/variations".to_owned(), RouteType::Detect),
        ("/v1/responses/compact".to_owned(), RouteType::Detect),
        ("/v1/embeddings".to_owned(), RouteType::Embeddings),
        ("*".to_owned(), RouteType::Passthrough),
    ];
    assert(route_texts(r@) =~= model_paths());
    r
}

fn make_model_match(headers: Vec<Arc<HeaderMatch>>, value: &HeaderValueMatch) -> (r: RouteMatch)
    ensures
        r@ == model_match(header_views(headers@), value@),
{
    let ghost held = headers@;
    let mut headers = headers;
    headers.push(
        Arc::new(
            HeaderMatch {
                name: HeaderOrPseudo::Header(MODEL_NAME_HEADER.to_owned()),
                value: match value {
                    HeaderValueMatch::Exact(v) => HeaderValueMatch::Exact(v.clone()),
                    HeaderValueMatch::Regex(v) => HeaderValueMatch::Regex(v.clone()),
                },
            },
        ),
    );
    assert(header_views(headers@) =~= header_views(held).push(model_header(value@)));
    let r = RouteMatch {
        headers,
        path: PathMatch::PathPrefix("/".to_owned()),
        method: None,
        query: Vec::new(),
    };
    assert(r@ =~= model_match(header_views(held), value@));
    r
}

fn make_model_matches(conditions: Vec<LLMRouteMatch>, value: &HeaderValueMatch) -> (r: Vec<
    RouteMatch,
>)
    ensures
        views(r@) == model_matches(conditions@, value@),
{
    let ghost all = conditions@;
    if conditions.len() == 0 {
        let none: Vec<Arc<HeaderMatch>> = Vec::new();
        assert(header_views(none@) =~= Seq::<HeaderMatchView>::empty());
        let r = vec![make_model_match(none, value)];
        assert(views(r@) =~= model_matches(all, value@));
        return r;
    }
    let mut out: Vec<RouteMatch> = Vec::new();
    for c in it: conditions.into_iter()
        invariant
            it.seq() == all,
            out@.len() == it.index(),
            forall|j: int|
                0 <= j < it.index() ==> (#[trigger] out@[j])@ == model_match(
                    header_views(all[j].headers@),
                    value@,
                ),
    {
        out.push(make_model_match(c.headers, value));
    }
    assert(views(out@) =~= model_matches(all, value@));
    out
}

fn make_model_route(
    name: &str,
    idx: usize,
    conditions: Vec<LLMRouteMatch>,
    value: &HeaderValueMatch,
    Ghost(m): Ghost<LocalLLMModels>,
) -> (r: Route)
    requires
        m.name@ == name@,
        m.matches == conditions,
        name_match(name@) == Ok::<HeaderValueMatchView, Text>(value@),
    ensures
        r@ == model_route(m, idx as int),
{
    let digits = to_decimal(idx as u64);
    let padded = to_padded_decimal(idx as u64, 6);
    let backend_key = join4("llm:model:", name, ":", digits.as_str());
    let backends = vec![
        RouteBackendReference {
            weight: 1,
            target: RouteBackendTarget::Backend(
                BackendReference::Backend(join2("/", backend_key.as_str())),
            ),
            inline_policies: Vec::new(),
        },
    ];
    assert(backends@[0]@ =~= model_route(m, idx as int).backends[0]);
    assert(views(backends@) =~= model_route(m, idx as int).backends);
    let mut policy = llm::Policy::empty();
    policy.routes = Arc::new(make_model_paths());
    assert(policy@ =~= (llm::PolicyView { routes: model_paths(), ..llm::Policy::empty_view() }));
    let inline_policies = vec![TrafficPolicy::AI(Arc::new(policy))];
    assert(views(inline_policies@) =~= model_route(m, idx as int).inline_policies);
    let r = Route {
        key: join4("llm:model:", padded.as_str(), ":", name),
        service_key: None,
        name: make_internal_route_name(join2("model:", name)),
        hostnames: Vec::new(),
        matches: make_model_matches(conditions, value),
        inline_policies,
        backends,
    };
    assert(r@.hostnames =~= Seq::<Text>::empty());
    assert(r@ =~= model_route(m, idx as int));
    r
}

fn convert_model(config: &GatewayConfig, idx: usize, model_config: LocalLLMModels) -> (r: Result<
    (Route, BackendWithPolicies),
    ConfigError,
>)
    ensures
        match r {
            Ok(p) => {
                &&& model_refusals(config.default_backend_tls)(idx as int, model_config) is None
                &&& p.0@ == model_route(model_config, idx as int)
                &&& p.1@ == model_backend(model_config, idx as int, config.default_backend_tls)
            },
            Err(e) => model_refusals(config.default_backend_tls)(idx as int, model_config) == Some(
                e@,
            ),
        },
{
    let ghost given = model_config;
    let mut m = model_config;
    m.apply_base_url(&config.default_backend_tls)?;
    let provider = m.make_provider()?;
    assert(provider == given.provided());
    let mut provider_policies: Vec<BackendTrafficPolicy> = Vec::new();
    assert(views(provider_policies@) =~= Seq::<BackendTrafficPolicyView>::empty());
    add_opt(
        &mut provider_policies,
        match m.params.api_key {
            Some(key) => Some(
                BackendTrafficPolicy::BackendAuth(
                    Arc::new(BackendAuth::Key { value: key.value, location: None }),
                ),
            ),
            None => None,
        },
    );
    assert(views(provider_policies@) =~= model_provider_rules(given));
    let digits = to_decimal(idx as u64);
    let backend_key = join4("llm:model:", m.name.as_str(), ":", digits.as_str());
    let named_provider = NamedAIProvider {
        name: m.name.clone(),
        provider,
        host_override: m.params.host_override,
        path_override: m.params.path_override,
        path_prefix: m.params.path_prefix,
        tokenize: m.params.tokenize,
        inline_policies: provider_policies,
    };
    assert(named_provider@ =~= model_provider(given));
    let group = vec![(m.name.clone(), named_provider)];
    assert(group_view(group@) =~= seq![(given.name@, model_provider(given))]);
    let ai_backend = AIBackend { providers: vec![group] };
    assert(ai_backend@ =~= seq![seq![(given.name@, model_provider(given))]]);
    let mut pols: Vec<BackendTrafficPolicy> = Vec::new();
    assert(views(pols@) =~= Seq::<BackendTrafficPolicyView>::empty());
    add_opt(
        &mut pols,
        match load(m.backend_tls)? {
            Some(p) => Some(BackendTrafficPolicy::BackendTLS(p)),
            None => None,
        },
    );
    add_opt(
        &mut pols,
        match m.auth {
            Some(p) => Some(BackendTrafficPolicy::BackendAuth(p)),
            None => None,
        },
    );
    add_opt(
        &mut pols,
        match m.backend_tunnel {
            Some(p) => Some(BackendTrafficPolicy::Tunnel(p)),
            None => None,
        },
    );
    let headers = make_request_headers(m.request_headers, Ghost(given));
    add_opt(&mut pols, Some(BackendTrafficPolicy::RequestHeaderModifier(Arc::new(headers))));
    add_opt(
        &mut pols,
        match m.response_headers {
            Some(p) => Some(BackendTrafficPolicy::ResponseHeaderModifier(p)),
            None => None,
        },
    );
    add_opt(
        &mut pols,
        match load_health(m.health)? {
            Some(p) => Some(BackendTrafficPolicy::Health(p)),
            None => None,
        },
    );
    let mut policy = llm::Policy::empty();
    policy.defaults = m.defaults;
    policy.overrides = m.overrides;
    policy.transformations = m.transformation;
    policy.prompt_guard = m.guardrails;
    assert(policy@ =~= model_policy(given));
    add_opt(&mut pols, Some(BackendTrafficPolicy::AI(Arc::new(policy))));
    let backend = BackendWithPolicies {
        backend: Backend::AI(local_name(backend_key), ai_backend),
        inline_policies: pols,
    };
    let value = llm_model_name_header_match(m.name.as_str())?;
    let route = make_model_route(m.name.as_str(), idx, m.matches, &value, Ghost(given));
    Ok((route, backend))
}

/// The routes of models.
pub open spec fn model_routes(models: Seq<LocalLLMModels>) -> Seq<RouteView> {
    models.map(|i: int, m: LocalLLMModels| model_route(m, i))
}

/// The backends of models.
pub open spec fn model_backends(models: Seq<LocalLLMModels>, default_tls: Loaded<PolicyBody>) -> Seq<
    BackendWithPoliciesView,
> {
    models.map(|i: int, m: LocalLLMModels| model_backend(m, i, default_tls))
}

fn convert_models(config: &GatewayConfig, models: Vec<LocalLLMModels>) -> (r: Result<
    (Vec<Route>, Vec<BackendWithPolicies>),
    ConfigError,
>)
    ensures
        match r {
            Ok(p) => {
                &&& first_refusal(models@, model_refusals(config.default_backend_tls)) is None
                &&& views(p.0@) == model_routes(models@)
                &&& views(p.1@) == model_backends(models@, config.default_backend_tls)
            },
            Err(e) => first_refusal(models@, model_refusals(config.default_backend_tls)) == Some(
                e@,
            ),
        },
{
    let ghost all = models@;
    let ghost refusals = model_refusals(config.default_backend_tls);
    let mut routes: Vec<Route> = Vec::new();
    let mut backends: Vec<BackendWithPolicies> = Vec::new();
    for m in it: models.into_iter()
        invariant
            it.seq() == all,
            refusals == model_refusals(config.default_backend_tls),
            first_refusal(all.take(it.index() as int), refusals) is None,
            routes@.len() == it.index(),
            backends@.len() == it.index(),
            forall|j: int|
                0 <= j < it.index() ==> (#[trigger] routes@[j])@ == model_route(all[j], j),
            forall|j: int|
                0 <= j < it.index() ==> (#[trigger] backends@[j])@ == model_backend(
                    all[j],
                    j,
                    config.default_backend_tls,
                ),
    {
        let ghost n = it.index() as int;
        proof {
            lemma_first_refusal(all, refusals, n);
        }
        let (route, backend) = convert_model(config, routes.len(), m)?;
        routes.push(route);
        backends.push(backend);
    }
    assert(all.take(all.len() as int) =~= all);
    assert(views(routes@) =~= model_routes(all));
    assert(views(backends@) =~= model_backends(all, config.default_backend_tls));
    Ok((routes, backends))
}

// ---------------------------------------------------------------------------------------------
// The bind
// ---------------------------------------------------------------------------------------------

impl LocalLLMPolicy {
    /// The policies that run on the route of the model.
    pub open spec fn route_part(self) -> FilterOrPolicy {
        FilterOrPolicy {
            authorization: self.authorization,
            local_rate_limit: if self.local_rate_limit@.len() == 0 {
                None
            } else {
                Some(LocalRateLimitPolicy::Explicit(self.local_rate_limit))
            },
            remote_rate_limit: match self.remote_rate_limit {
                Some(p) => Some(LocalExplicitOrConditional::Explicit(p)),
                None => None,
            },
            ..FilterOrPolicy::nothing()
        }
    }
}

impl LocalLLMConfig {
    /// The port on which the models are served.
    pub open spec fn served_port(self) -> u16 {
        match self.port {
            Some(p) => p,
            None => DEFAULT_LLM_PORT,
        }
    }

    /// Why the policies are refused, if they are.
    pub open spec fn policy_refusal(self, config: GatewayConfig) -> Option<Text> {
        match self.policies {
            Some(p) => first_of(
                p.route_part().refusal(None),
                FilterOrPolicy::of_gateway(p.gateway).refusal(
                    Some(config.context_of(PolicyIdView::Policy("listener/llm"@))),
                ),
            ),
            None => None,
        }
    }

    /// The policies that run before a route is chosen.
    pub open spec fn gateway_rules(self, config: GatewayConfig) -> Seq<TrafficPolicyView> {
        match self.policies {
            Some(p) => FilterOrPolicy::of_gateway(p.gateway).route_rules(
                Some(config.context_of(PolicyIdView::Policy("listener/llm"@))),
            ),
            None => Seq::empty(),
        }
    }

    /// The policies that run on the route of the model.
    pub open spec fn route_rules(self) -> Seq<TrafficPolicyView> {
        match self.policies {
            Some(p) => p.route_part().route_rules(None),
            None => Seq::empty(),
        }
    }

    /// Why the configuration is refused, if it is. `transformation` is what compiling the
    /// transformation that keeps the model of a request in a header came to.
    pub open spec fn refusal(
        self,
        config: GatewayConfig,
        transformation: Loaded<PolicyBody>,
    ) -> Option<Text> {
        first_of(
            self.policy_refusal(config),
            first_of(
                load_refusal(Some(transformation)),
                first_refusal(self.models@, model_refusals(config.default_backend_tls)),
            ),
        )
    }

    /// The policies that are attached to the listener: those of the configuration, and last the
    /// one that keeps the model of a request in a header.
    pub open spec fn attached(
        self,
        config: GatewayConfig,
        gateway: ListenerTargetView,
        transformation: Loaded<PolicyBody>,
    ) -> Seq<TargetedPolicyView> {
        let target = listener_target(named_listener("llm"@, gateway).name);
        (attached_policies(
            "listener/"@,
            0,
            target,
            self.gateway_rules(config),
            PolicyPhase::Gateway,
        ) + attached_policies(
            "listener/"@,
            self.gateway_rules(config).len() as int,
            target,
            self.route_rules(),
            PolicyPhase::Route,
        )).push(
            TargetedPolicyView {
                key: "llm:transformation"@,
                name: Some(
                    TypedResourceNameView {
                        kind: "Local"@,
                        name: "llm:transformation"@,
                        namespace: "internal"@,
                    },
                ),
                target,
                policy: PolicyTypeView::Traffic(
                    TrafficPolicyView::Transformation(always(*transformation->Ok_0)),
                    PolicyPhase::Gateway,
                ),
            },
        )
    }

    /// The bind of the models, with a route that lists them and a route for each.
    pub open spec fn converted(
        self,
        config: GatewayConfig,
        gateway: ListenerTargetView,
        transformation: Loaded<PolicyBody>,
        created: u64,
    ) -> ConvertedBindView {
        ConvertedBindView {
            bind: single_bind(config, self.served_port(), "llm"@, gateway),
            routes: seq![
                model_list_route_of(model_list_of(created, quoted_names(self.models@))),
            ] + model_routes(self.models@),
            policies: self.attached(config, gateway, transformation),
            backends: model_backends(self.models@, config.default_backend_tls),
        }
    }
}

fn split_llm_policies(config: &GatewayConfig, policies: Option<LocalLLMPolicy>, Ghost(c): Ghost<
    LocalLLMConfig,
>) -> (r: Result<(Vec<TrafficPolicy>, Vec<TrafficPolicy>), ConfigError>)
    requires
        c.policies == policies,
    ensures
        match r {
            Ok(p) => {
                &&& c.policy_refusal(*config) is None
                &&& views(p.0@) == c.gateway_rules(*config)
                &&& views(p.1@) == c.route_rules()
                &&& p.0@.len() <= 22
                &&& p.1@.len() <= 22
            },
            Err(e) => c.policy_refusal(*config) == Some(e@),
        },
{
    match policies {
        Some(pol) => {
            let ghost given = pol;
            let mut route_part = FilterOrPolicy::empty();
            route_part.authorization = pol.authorization;
            if pol.local_rate_limit.len() != 0 {
                route_part.local_rate_limit = Some(
                    LocalRateLimitPolicy::Explicit(pol.local_rate_limit),
                );
            }
            match pol.remote_rate_limit {
                Some(p) => {
                    route_part.remote_rate_limit = Some(LocalExplicitOrConditional::Explicit(p));
                },
                None => {},
            }
            assert(route_part == given.route_part());
            let route_policies = split_policies(route_part, None)?;
            let gateway_policies = split_policies(
                FilterOrPolicy::from(pol.gateway),
                Some(config.policy_context(PolicyId::Policy("listener/llm".to_owned()))),
            )?;
            Ok((gateway_policies.route_policies, route_policies.route_policies))
        },
        None => {
            let a: Vec<TrafficPolicy> = Vec::new();
            let b: Vec<TrafficPolicy> = Vec::new();
            assert(views(a@) =~= Seq::<TrafficPolicyView>::empty());
            assert(views(b@) =~= Seq::<TrafficPolicyView>::empty());
            Ok((a, b))
        },
    }
}

/// The bind of the models that the gateway serves: a route that lists them, and for each of them a
/// route and a backend. A request is matched by its model, which a transformation keeps in a
/// header; `transformation` is what compiling it came to. `created` is when the gateway was
/// started, in seconds.
pub fn convert_llm_config(
    config: &GatewayConfig,
    gateway: &ListenerTarget,
    llm_config: LocalLLMConfig,
    transformation: Loaded<PolicyBody>,
    created: u64,
) -> (r: Result<ConvertedBind, ConfigError>)
    ensures
        match r {
            Ok(c) => {
                &&& llm_config.refusal(*config, transformation) is None
                &&& c.bind.wf()
                &&& c@ == llm_config.converted(*config, gateway@, transformation, created)
            },
            Err(e) => llm_config.refusal(*config, transformation) == Some(e@),
        },
{
    let ghost given = llm_config;
    let port: u16 = match llm_config.port {
        Some(p) => p,
        None => DEFAULT_LLM_PORT,
    };
    let (gateway_rules, route_rules) = split_llm_policies(
        config,
        llm_config.policies,
        Ghost(given),
    )?;
    let transformation_body = match transformation {
        Ok(t) => t,
        Err(e) => {
            return Err(ConfigError::of(e));
        },
    };
    let mut routes: Vec<Route> = Vec::new();
    let body = model_list_body(created, &llm_config.models);
    routes.push(model_list_route(body));
    let (models, backends) = convert_models(config, llm_config.models)?;
    proof {
        lemma_views(routes@, models@);
        assert(views(routes@) =~= seq![
            model_list_route_of(model_list_of(created, quoted_names(given.models@))),
        ]);
    }
    crate::local::error::extend(&mut routes, models);
    let (bind, listener_name) = make_single_bind(config, port, "llm", gateway);
    let mut policies: Vec<TargetedPolicy> = Vec::new();
    assert(views(policies@) =~= Seq::<TargetedPolicyView>::empty());
    let count: usize = gateway_rules.len();
    let ghost gw = views(gateway_rules@);
    let ghost rr = views(route_rules@);
    attach_policies(
        &mut policies,
        "listener/",
        0,
        &listener_name,
        gateway_rules,
        PolicyPhase::Gateway,
    );
    attach_policies(
        &mut policies,
        "listener/",
        count,
        &listener_name,
        route_rules,
        PolicyPhase::Route,
    );
    let ghost target = listener_target(named_listener("llm"@, gateway@).name);
    let ghost expected = given.attached(*config, gateway@, transformation);
    assert(views(policies@) =~= expected.drop_last());
    let rule = RequestPolicy::Single(transformation_body);
    assert(rule@ =~= always(*transformation_body));
    let made = TargetedPolicy {
        key: "llm:transformation".to_owned(),
        name: Some(
            TypedResourceName {
                kind: "Local".to_owned(),
                name: "llm:transformation".to_owned(),
                namespace: "internal".to_owned(),
            },
        ),
        target: PolicyTarget::Gateway(listener_name.to_target()),
        policy: PolicyType::Traffic(TrafficPolicy::Transformation(rule), PolicyPhase::Gateway),
    };
    assert(made@ =~= expected.last());
    proof {
        lemma_views(policies@, Seq::empty());
        assert(expected =~= expected.drop_last().push(expected.last()));
    }
    policies.push(made);
    let r = ConvertedBind { bind, routes, policies, backends };
    assert(r@ =~= given.converted(*config, gateway@, transformation, created));
    Ok(r)
}

} // verus!
