//! Laws of the models that a configuration serves: what each parameter of a model comes to.

use std::sync::Arc;

use vstd::prelude::*;

use crate::local::config::GatewayConfig;
use crate::local::error::{loaded, one, Loaded};
use crate::local::llm::{
    json_escaped, json_quoted, model_backend, model_backends, model_entries, model_list_of,
    model_refusals, model_route, model_routes, sets_headers, single_bind, LocalLLMConfig,
    LocalTransformationConfig,
};
use crate::local::models::{
    escaped, is_meta, is_value_char, name_match, name_pattern, parsed_url, regex_refusal, stars,
    trimmed, Base, LocalLLMModels, UrlParts,
};
use crate::local::split::FilterOrPolicy;
use crate::text::{decimal, opt_text, opt_view, padded_decimal, Text};
use crate::types::agent::{
    header_views, BackendReferenceView, BackendView, HeaderOrPseudoView, HeaderValueMatchView,
    ListenerTargetView, PathMatchView, PolicyTargetView, RouteBackendTargetView, SocketAddr,
    TargetView,
};
use crate::types::llm::{AIProvider, RouteType};
use crate::types::policy::{always, pair_texts, BackendAuth, PolicyBody, PolicyIdView};
use crate::types::traffic::{
    BackendTrafficPolicy, BackendTrafficPolicyView, PolicyPhase, PolicyTypeView, TrafficPolicyView,
};

verus! {

// ---------------------------------------------------------------------------------------------
// Providers
// ---------------------------------------------------------------------------------------------

/// Whichever the provider, the model that the made provider asks for is the one that the parameters
/// name.
pub proof fn providers_ask_for_the_named_model(m: LocalLLMModels)
    ensures
        (match m.provided() {
            AIProvider::Anthropic { model } => model,
            AIProvider::OpenAI { model } => model,
            AIProvider::Copilot { model } => model,
            AIProvider::Gemini { model } => model,
            AIProvider::Vertex { model, region: _, project_id: _ } => model,
            AIProvider::Bedrock {
                model,
                region: _,
                guardrail_identifier: _,
                guardrail_version: _,
            } => model,
            AIProvider::Azure {
                model,
                resource_name: _,
                resource_type: _,
                api_version: _,
                project_name: _,
            } => model,
        }) == m.params.model,
{
}

/// The made provider is the one that is asked for, with the region, project and resource that the
/// parameters name.
pub proof fn providers_are_those_asked_for(m: LocalLLMModels)
    requires
        m.provider_refusal() is None,
    ensures
        m.provider is Anthropic <==> m.provided() is Anthropic,
        m.provider is OpenAI <==> m.provided() is OpenAI,
        m.provider is Copilot <==> m.provided() is Copilot,
        m.provider is Gemini <==> m.provided() is Gemini,
        m.provider is Vertex <==> m.provided() is Vertex,
        m.provider is Bedrock <==> m.provided() is Bedrock,
        m.provider is Azure <==> m.provided() is Azure,
        m.provided() matches AIProvider::Vertex { model, region, project_id } ==> region
            == m.params.vertex_region && Some(project_id) == m.params.vertex_project,
        m.provided() matches AIProvider::Bedrock {
            model,
            region,
            guardrail_identifier,
            guardrail_version,
        } ==> Some(region) == m.params.aws_region && guardrail_identifier is None
            && guardrail_version is None,
        m.provided() matches AIProvider::Azure {
            model,
            resource_name,
            resource_type,
            api_version,
            project_name,
        } ==> Some(resource_name) == m.params.azure_resource_name && Some(resource_type)
            == m.params.azure_resource_type && api_version == m.params.azure_api_version
            && project_name == m.params.azure_project_name,
{
}

/// A provider is refused exactly if a parameter that it needs is not set: the project of Vertex,
/// the region of Bedrock, the resource and its type of Azure.
pub proof fn providers_need_their_parameters(m: LocalLLMModels)
    ensures
        m.provider is Vertex ==> m.provider_refusal() == (if m.params.vertex_project is None {
            Some("vertex requires vertex_project"@)
        } else {
            None
        }),
        m.provider is Bedrock ==> m.provider_refusal() == (if m.params.aws_region is None {
            Some("bedrock requires aws_region"@)
        } else {
            None
        }),
        m.provider is Azure ==> m.provider_refusal() == (if m.params.azure_resource_name is None {
            Some("azure requires azureResourceName"@)
        } else if m.params.azure_resource_type is None {
            Some("azure requires azureResourceType"@)
        } else {
            None
        }),
        m.provider is Anthropic || m.provider is OpenAI || m.provider is Copilot || m.provider
            is Gemini ==> m.provider_refusal() is None,
{
}

/// A base URL sets the host, and the path prefix if its path is more than slashes; it sets TLS if
/// it is an https URL and no settings of TLS are written. Without a base URL what is written
/// stands.
pub proof fn base_url_sets_host_prefix_and_tls(
    m: LocalLLMModels,
    default_tls: Loaded<PolicyBody>,
)
    ensures
        m.params.base_url is None ==> {
            &&& m.base_refusal() is None
            &&& m.host() == opt_view(m.params.host_override)
            &&& m.prefix() == opt_text(m.params.path_prefix)
            &&& m.tls(default_tls) == m.backend_tls
        },
        m.params.base_url matches Some(u) ==> match parsed_url(u@) {
            None => m.base_refusal() == Some("invalid params.baseUrl for model "@ + m.name@),
            Some(url) => if url.port is None {
                m.base_refusal() == Some(
                    "params.baseUrl for model "@ + m.name@
                        + " must use http or https, or include an explicit port"@,
                )
            } else if url.host is None {
                m.base_refusal() == Some(
                    "params.baseUrl for model "@ + m.name@ + " must include a host"@,
                )
            } else {
                &&& m.base_refusal() is None
                &&& m.host() == Some(TargetView { host: url.host->0, port: url.port->0 })
                &&& trimmed(url.path).len() > 0 ==> m.prefix() == Some(trimmed(url.path))
                &&& trimmed(url.path).len() == 0 ==> m.prefix() == opt_text(m.params.path_prefix)
                &&& m.backend_tls is Some ==> m.tls(default_tls) == m.backend_tls
                &&& m.backend_tls is None && url.scheme == "https"@ ==> m.tls(default_tls) == Some(
                    default_tls,
                )
                &&& m.backend_tls is None && url.scheme != "https"@ ==> m.tls(default_tls) is None
            },
        },
{
}

/// A path is trimmed of the slashes at its end and of nothing else.
pub proof fn only_slashes_are_trimmed(path: Text, i: int)
    ensures
        trimmed(path).len() <= path.len(),
        0 <= i < trimmed(path).len() ==> trimmed(path)[i] == path[i],
        trimmed(path).len() <= i < path.len() ==> path[i] == '/',
        trimmed(path).len() > 0 ==> trimmed(path).last() != '/',
    decreases path.len(),
{
    if path.len() > 0 && path.last() == '/' {
        only_slashes_are_trimmed(path.drop_last(), i);
    }
}

// ---------------------------------------------------------------------------------------------
// Names
// ---------------------------------------------------------------------------------------------

/// The stars of a text are counted one by one.
pub proof fn stars_are_counted(text: Text, c: char)
    ensures
        stars(Seq::empty()) == 0,
        stars(text.push(c)) == (if c == '*' {
            stars(text) + 1
        } else {
            stars(text)
        }),
{
    assert(text.push(c).drop_last() =~= text);
}

/// A text is escaped character by character: one that has a meaning in patterns gets a backslash in
/// front, the others stay.
pub proof fn patterns_are_escaped(text: Text, c: char)
    ensures
        escaped(Seq::empty()) == Seq::<char>::empty(),
        is_meta(c) ==> escaped(text.push(c)) == escaped(text).push('\\').push(c),
        !is_meta(c) ==> escaped(text.push(c)) == escaped(text).push(c),
        is_meta('.') && is_meta('*') && is_meta('+') && is_meta('?') && is_meta('\\') && is_meta(
            '-',
        ),
        !is_meta('a') && !is_meta('/') && !is_meta(':'),
{
    assert(text.push(c).drop_last() =~= text);
}

/// A model name without a star is matched as it is. A star alone matches everything; one at the
/// beginning matches every beginning, one at the end every end, and the rest is matched as it is. A
/// name with more than one star, or with a star elsewhere, is refused.
pub proof fn model_names_match_by_their_star(name: Text)
    ensures
        stars(name) > 1 ==> name_pattern(name) == Err::<HeaderValueMatchView, Text>(
            "model name '"@ + name + "' may only include a single '*' wildcard"@,
        ),
        stars(name) == 0 && (forall|i: int| 0 <= i < name.len()
            ==> is_value_char(#[trigger] name[i]))
            ==> name_pattern(name) == Ok::<HeaderValueMatchView, Text>(
            HeaderValueMatchView::Exact(name),
        ),
        stars(name) == 0 && !(forall|i: int|
            0 <= i < name.len() ==> is_value_char(#[trigger] name[i])) ==> name_pattern(name)
            == Err::<HeaderValueMatchView, Text>("failed to parse header value"@),
        stars(name) == 1 && name == "*"@ ==> name_pattern(name) == Ok::<HeaderValueMatchView, Text>(
            HeaderValueMatchView::Regex(".*"@),
        ),
        stars(name) == 1 && name != "*"@ && name[0] == '*' ==> name_pattern(name) == Ok::<
            HeaderValueMatchView,
            Text,
        >(HeaderValueMatchView::Regex(".*"@ + escaped(name.drop_first()))),
        stars(name) == 1 && name != "*"@ && name[0] != '*' && name.last() == '*' ==> name_pattern(
            name,
        ) == Ok::<HeaderValueMatchView, Text>(
            HeaderValueMatchView::Regex(escaped(name.drop_last()) + ".*"@),
        ),
        stars(name) == 1 && name != "*"@ && name[0] != '*' && name.last() != '*' ==> name_pattern(
            name,
        ) == Err::<HeaderValueMatchView, Text>(
            "model name wildcard must be either at the beginning or the end: '"@ + name + "'"@,
        ),
        name_pattern(name) matches Ok(HeaderValueMatchView::Exact(n)) ==> name_match(name)
            == name_pattern(name),
        name_pattern(name) matches Err(e) ==> name_match(name) == name_pattern(name),
        name_pattern(name) matches Ok(HeaderValueMatchView::Regex(p)) ==> (match regex_refusal(p) {
            Some(e) => name_match(name) == Err::<HeaderValueMatchView, Text>(e),
            None => name_match(name) == name_pattern(name),
        }),
{
}

// ---------------------------------------------------------------------------------------------
// What is made of a model
// ---------------------------------------------------------------------------------------------

/// The backend of a model asks the provider that is made of its parameters, under the name of the
/// model, at the host and path that are set, and counts tokens if that is set. An API key in the
/// parameters authenticates to the provider.
pub proof fn model_backend_asks_the_provider(
    m: LocalLLMModels,
    idx: int,
    default_tls: Loaded<PolicyBody>,
)
    ensures
        model_backend(m, idx, default_tls).backend matches BackendView::AI(name, groups) && {
            &&& name.name == "llm:model:"@ + m.name@ + ":"@ + decimal(idx as nat)
            &&& name.namespace == Seq::<char>::empty()
            &&& groups.len() == 1 && groups[0].len() == 1
            &&& groups[0][0].0 == m.name@
            &&& groups[0][0].1.name == m.name@
            &&& groups[0][0].1.provider == m.provided()
            &&& groups[0][0].1.host_override == m.host()
            &&& groups[0][0].1.path_override == opt_text(m.params.path_override)
            &&& groups[0][0].1.path_prefix == m.prefix()
            &&& groups[0][0].1.tokenize == m.params.tokenize
            &&& m.params.api_key is None ==> groups[0][0].1.inline_policies.len() == 0
            &&& m.params.api_key matches Some(k) ==> groups[0][0].1.inline_policies.len() == 1
                && groups[0][0].1.inline_policies[0] == BackendTrafficPolicy::BackendAuth(
                Arc::new(BackendAuth::Key { value: k.value, location: None }),
            )@
        },
{
}

/// The policies of the backend of a model are those that are set on the model, TLS as it was set or
/// loaded, and two that are always there: the header that holds the model name is removed after the
/// other header changes, and the model policy holds the defaults, overrides, transformation and
/// guardrails of the model.
pub proof fn model_backend_has_the_policies_of_the_model(
    m: LocalLLMModels,
    idx: int,
    default_tls: Loaded<PolicyBody>,
)
    ensures
        ({
            let rules = model_backend(m, idx, default_tls).inline_policies;
            let tls = loaded(m.tls(default_tls));
            &&& tls matches Some(p) ==> rules.contains(BackendTrafficPolicy::BackendTLS(p)@)
            &&& m.auth matches Some(p) ==> rules.contains(BackendTrafficPolicy::BackendAuth(p)@)
            &&& m.backend_tunnel matches Some(p) ==> rules.contains(
                BackendTrafficPolicy::Tunnel(p)@,
            )
            &&& m.response_headers matches Some(p) ==> rules.contains(
                BackendTrafficPolicy::ResponseHeaderModifier(p)@,
            )
            &&& loaded(m.health) matches Some(p) ==> rules.contains(
                BackendTrafficPolicy::Health(p)@,
            )
            &&& exists|i: int|
                0 <= i < rules.len() && (#[trigger] rules[i]
                    matches BackendTrafficPolicyView::RequestHeaderModifier(h) && {
                    &&& h.remove.len() > 0 && h.remove.last() == "x-gateway-model-name"@
                    &&& m.request_headers is None ==> h.add.len() == 0 && h.set.len() == 0
                        && h.remove.len() == 1
                    &&& m.request_headers matches Some(g) ==> h.add == g@.add && h.set == g@.set
                        && h.remove.drop_last() == g@.remove
                })
            &&& exists|i: int|
                0 <= i < rules.len() && (#[trigger] rules[i] matches BackendTrafficPolicyView::AI(p)
                    && {
                    &&& p.defaults == m.defaults
                    &&& p.overrides == m.overrides
                    &&& p.transformations == m.transformation
                    &&& p.prompt_guard == m.guardrails
                    &&& p.prompts is None && p.prompt_caching is None
                    &&& p.model_aliases.len() == 0 && p.wildcard_patterns.len() == 0
                    &&& p.routes.len() == 0
                })
            &&& rules.len() == 2 + one(tls).len() + one(m.auth).len() + one(m.backend_tunnel).len()
                + one(m.response_headers).len() + one(loaded(m.health)).len()
        }),
{
    let rules = model_backend(m, idx, default_tls).inline_policies;
    let a = one(
        match loaded(m.tls(default_tls)) {
            Some(p) => Some(BackendTrafficPolicy::BackendTLS(p)@),
            None => None,
        },
    );
    let b = one(
        match m.auth {
            Some(p) => Some(BackendTrafficPolicy::BackendAuth(p)@),
            None => None,
        },
    );
    let c = one(
        match m.backend_tunnel {
            Some(p) => Some(BackendTrafficPolicy::Tunnel(p)@),
            None => None,
        },
    );
    let headers = crate::local::llm::model_request_headers(m);
    let d = one(Some(BackendTrafficPolicyView::RequestHeaderModifier(headers)));
    let e = one(
        match m.response_headers {
            Some(p) => Some(BackendTrafficPolicy::ResponseHeaderModifier(p)@),
            None => None,
        },
    );
    let f = one(
        match loaded(m.health) {
            Some(p) => Some(BackendTrafficPolicy::Health(p)@),
            None => None,
        },
    );
    let policy = crate::local::llm::model_policy(m);
    let g = one(Some(BackendTrafficPolicyView::AI(policy)));
    assert(rules == Seq::<BackendTrafficPolicyView>::empty() + a + b + c + d + e + f + g);
    let i = a.len();
    let j = i + b.len();
    let k = j + c.len();
    let l = k + 1;
    let n = l + e.len();
    let o = n + f.len();
    assert(a.len() > 0 ==> rules[0] == a[0]);
    assert(b.len() > 0 ==> rules[i as int] == b[0]);
    assert(c.len() > 0 ==> rules[j as int] == c[0]);
    assert(rules[k as int] == d[0]);
    assert(e.len() > 0 ==> rules[l as int] == e[0]);
    assert(f.len() > 0 ==> rules[n as int] == f[0]);
    assert(rules[o as int] == g[0]);
    assert(m.request_headers matches Some(given) ==> headers.remove.drop_last()
        =~= given@.remove);
}

/// The route of a model takes the requests whose model header matches the name of the model, under
/// each of the conditions that are written, in order; without conditions the name decides alone.
/// Its requests all go to the backend of the model.
pub proof fn model_route_takes_the_requests_of_the_model(m: LocalLLMModels, idx: int, i: int, j: int)
    requires
        name_match(m.name@) is Ok,
    ensures
        ({
            let r = model_route(m, idx);
            let value = name_match(m.name@)->Ok_0;
            &&& r.key == "llm:model:"@ + padded_decimal(idx as nat, 6) + ":"@ + m.name@
            &&& r.service_key is None
            &&& r.name.name == "model:"@ + m.name@
            &&& r.name.namespace == "internal"@
            &&& r.hostnames.len() == 0
            &&& m.matches@.len() == 0 ==> r.matches.len() == 1 && r.matches[0].headers.len() == 1
                && r.matches[0].headers[0].value == value && r.matches[0].headers[0].name
                == HeaderOrPseudoView::Header("x-gateway-model-name"@)
            &&& m.matches@.len() > 0 ==> r.matches.len() == m.matches@.len()
            &&& 0 <= i < m.matches@.len() ==> {
                let wanted = header_views(m.matches@[i].headers@);
                let have = r.matches[i].headers;
                &&& have.len() == wanted.len() + 1
                &&& 0 <= j < wanted.len() ==> have[j] == wanted[j]
                &&& have.last().value == value
                &&& have.last().name == HeaderOrPseudoView::Header("x-gateway-model-name"@)
            }
            &&& 0 <= i < r.matches.len() ==> r.matches[i].path == PathMatchView::PathPrefix("/"@)
                && r.matches[i].method is None && r.matches[i].query.len() == 0
            &&& r.backends.len() == 1
            &&& r.backends[0].weight == 1
            &&& r.backends[0].inline_policies.len() == 0
            &&& r.backends[0].target == RouteBackendTargetView::Backend(
                BackendReferenceView::Backend(
                    "/"@ + ("llm:model:"@ + m.name@ + ":"@ + decimal(idx as nat)),
                ),
            )
            &&& r.inline_policies.len() == 1
        }),
{
}

/// The routes of a model tell the kinds of requests apart by the ends of their paths; what matches
/// no path is passed through.
pub proof fn model_requests_are_told_apart_by_path(m: LocalLLMModels, idx: int)
    ensures
        model_route(m, idx).inline_policies[0] matches TrafficPolicyView::AI(p) && {
            &&& p.prompt_guard is None && p.defaults is None && p.overrides is None
            &&& p.transformations is None && p.prompts is None && p.prompt_caching is None
            &&& p.model_aliases.len() == 0 && p.wildcard_patterns.len() == 0
            &&& p.routes.len() == 11
            &&& p.routes[0] == ("/v1/chat/completions"@, RouteType::Completions)
            &&& p.routes[1] == ("/v1/messages"@, RouteType::Messages)
            &&& p.routes[2] == (":rawPredict"@, RouteType::Messages)
            &&& p.routes[3] == (":streamRawPredict"@, RouteType::Messages)
            &&& p.routes[4] == ("/v1/responses"@, RouteType::Responses)
            &&& p.routes[5] == ("/v1/images/generations"@, RouteType::Detect)
            &&& p.routes[6] == ("/v1/images/edits"@, RouteType::Detect)
            &&& p.routes[7] == ("/v1/images/variations"@, RouteType::Detect)
            &&& p.routes[8] == ("/v1/responses/compact"@, RouteType::Detect)
            &&& p.routes[9] == ("/v1/embeddings"@, RouteType::Embeddings)
            &&& p.routes[10] == ("*"@, RouteType::Passthrough)
        },
{
}

/// A model is refused for its base URL, else for a missing parameter of its provider, else for TLS
/// that could not be loaded, else for health that could not, else for its name.
pub proof fn models_are_refused_for_the_first_reason(
    m: LocalLLMModels,
    i: int,
    default_tls: Loaded<PolicyBody>,
)
    ensures
        model_refusals(default_tls)(i, m) == (if m.base_refusal() is Some {
            m.base_refusal()
        } else if m.provider_refusal() is Some {
            m.provider_refusal()
        } else if m.tls(default_tls) is Some && m.tls(default_tls)->0 is Err {
            Some(m.tls(default_tls)->0->Err_0@)
        } else if m.health is Some && m.health->0 is Err {
            Some("health.unhealthyExpression: "@ + m.health->0->Err_0@)
        } else {
            match name_match(m.name@) {
                Err(e) => Some(e),
                Ok(_) => None,
            }
        }),
{
}

/// Each model has one route and one backend, in the order in which the models are written.
pub proof fn models_are_served_in_order(
    models: Seq<LocalLLMModels>,
    default_tls: Loaded<PolicyBody>,
    i: int,
)
    ensures
        model_routes(models).len() == models.len(),
        model_backends(models, default_tls).len() == models.len(),
        0 <= i < models.len() ==> model_routes(models)[i] == model_route(models[i], i)
            && model_backends(models, default_tls)[i] == model_backend(models[i], i, default_tls),
{
}

// ---------------------------------------------------------------------------------------------
// The list of models
// ---------------------------------------------------------------------------------------------

/// The list of models has an entry for each model, in order, with commas between them; each has the
/// time of the start and the quoted name.
pub proof fn model_list_has_every_model(created: u64, quoted: Seq<Text>, q: Text)
    ensures
        model_list_of(created, quoted) == "{\"data\":["@ + model_entries(created, quoted)
            + "],\"object\":\"list\"}"@,
        model_entries(created, Seq::empty()) == Seq::<char>::empty(),
        model_entries(created, quoted.push(q)) == (if quoted.len() == 0 {
            "{\"created\":"@ + decimal(created as nat) + ",\"id\":"@ + q
                + ",\"object\":\"model\",\"owned_by\":\"openai\"}"@
        } else {
            model_entries(created, quoted) + ","@ + ("{\"created\":"@ + decimal(created as nat)
                + ",\"id\":"@ + q + ",\"object\":\"model\",\"owned_by\":\"openai\"}"@)
        }),
{
    assert(quoted.push(q).drop_last() =~= quoted);
}

/// A name is quoted character by character; a quote and a backslash get a backslash in front, and
/// other visible characters stay.
pub proof fn names_are_quoted_character_by_character(text: Text, c: char)
    ensures
        json_quoted(text) == seq!['"'] + json_escaped(text) + seq!['"'],
        json_escaped(Seq::empty()) == Seq::<char>::empty(),
        c == '"' || c == '\\' ==> json_escaped(text.push(c)) == json_escaped(text).push('\\').push(
            c,
        ),
        c as int >= 32 && c != '"' && c != '\\' ==> json_escaped(text.push(c)) == json_escaped(
            text,
        ).push(c),
        c == '\n' ==> json_escaped(text.push(c)) == json_escaped(text).push('\\').push('n'),
        c as int == 8 ==> json_escaped(text.push(c)) == json_escaped(text).push('\\').push('b'),
        c as int == 12 ==> json_escaped(text.push(c)) == json_escaped(text).push('\\').push('f'),
        c == '\t' ==> json_escaped(text.push(c)) == json_escaped(text).push('\\').push('t'),
        c == '\r' ==> json_escaped(text.push(c)) == json_escaped(text).push('\\').push('r'),
{
    assert(text.push(c).drop_last() =~= text);
}

// ---------------------------------------------------------------------------------------------
// The bind of the models
// ---------------------------------------------------------------------------------------------

/// A bind with one listener is served at every address of the host at its port, and its listener
/// takes every host over HTTP. The key of the bind is made of the port, that of the listener is its
/// name.
pub proof fn single_binds_take_every_host(
    config: GatewayConfig,
    port: u16,
    name: Text,
    gateway: ListenerTargetView,
    l: Text,
)
    ensures
        ({
            let b = single_bind(config, port, name, gateway);
            &&& b.key == "bind/"@ + decimal(port as nat)
            &&& config.ipv6_enabled ==> b.address == (SocketAddr::V6 {
                ip: 0,
                port,
                flowinfo: 0,
                scope_id: 0,
            })
            &&& !config.ipv6_enabled ==> b.address == (SocketAddr::V4 { ip: 0, port })
            &&& b.protocol == crate::types::agent::BindProtocol::http
            &&& b.tunnel_protocol == crate::types::agent::TunnelProtocol::Direct
            &&& b.listeners.contains_key(l) <==> l == name
            &&& b.listeners[name].key == name
            &&& b.listeners[name].hostname == "*"@
            &&& b.listeners[name].protocol is HTTP
            &&& b.listeners[name].name.gateway_name == gateway.gateway_name
            &&& b.listeners[name].name.gateway_namespace == gateway.gateway_namespace
            &&& b.listeners[name].name.listener_name == name
            &&& b.listeners[name].name.listener_set is None
        }),
{
}

/// Models are served at the port that is set, 4000 if none is. The first route lists the models;
/// the others are those of the models, and the backends are those of the models.
pub proof fn models_are_served_at_their_port(
    c: LocalLLMConfig,
    config: GatewayConfig,
    gateway: ListenerTargetView,
    transformation: Loaded<PolicyBody>,
    created: u64,
    i: int,
)
    ensures
        ({
            let made = c.converted(config, gateway, transformation, created);
            &&& made.bind == single_bind(
                config,
                match c.port {
                    Some(p) => p,
                    None => 4000u16,
                },
                "llm"@,
                gateway,
            )
            &&& made.routes.len() == c.models@.len() + 1
            &&& made.routes[0].key == "llm:admin:model-list"@
            &&& made.routes[0].hostnames.len() == 0
            &&& made.routes[0].backends.len() == 0
            &&& made.routes[0].matches.len() == 2
            &&& made.routes[0].matches[0].path == PathMatchView::PathPrefix("/v1/models"@)
            &&& made.routes[0].matches[1].path == PathMatchView::PathPrefix("/models"@)
            &&& made.routes[0].inline_policies.len() == 2
            &&& made.routes[0].inline_policies[0]
                matches TrafficPolicyView::ResponseHeaderModifier(h) && h.set == seq![
                ("Content-Type"@, "application/json"@),
            ] && h.add.len() == 0 && h.remove.len() == 0
            &&& made.routes[0].inline_policies[1] == TrafficPolicyView::DirectResponse(
                always(
                    (
                        model_list_of(
                            created,
                            Seq::new(c.models@.len(), |n: int| json_quoted(c.models@[n].name@)),
                        ),
                        200u16,
                    ),
                ),
            )
            &&& 0 <= i < c.models@.len() ==> made.routes[i + 1] == model_route(c.models@[i], i)
                && made.backends[i] == model_backend(c.models@[i], i, config.default_backend_tls)
            &&& made.backends.len() == c.models@.len()
        }),
{
    let names = Seq::new(c.models@.len(), |n: int| json_quoted(c.models@[n].name@));
    assert(crate::local::llm::quoted_names(c.models@) =~= names);
}

/// The policies of the models are attached to their listener: first those that run before a model
/// is selected, then those that run after, each under its number, and last the transformation that
/// keeps the model of a request in a header.
pub proof fn model_policies_are_attached_to_the_listener(
    c: LocalLLMConfig,
    config: GatewayConfig,
    gateway: ListenerTargetView,
    transformation: Loaded<PolicyBody>,
    i: int,
)
    requires
        transformation is Ok,
    ensures
        ({
            let all = c.attached(config, gateway, transformation);
            let first = c.gateway_rules(config);
            let then = c.route_rules();
            let target = PolicyTargetView::Gateway(
                ListenerTargetView {
                    gateway_name: gateway.gateway_name,
                    gateway_namespace: gateway.gateway_namespace,
                    listener_name: Some("llm"@),
                    port: None,
                },
            );
            &&& all.len() == first.len() + then.len() + 1
            &&& 0 <= i < all.len() ==> all[i].target == target
            &&& 0 <= i < first.len() + then.len() ==> all[i].key == "listener/"@ + decimal(i as nat)
                && all[i].name is None
            &&& 0 <= i < first.len() ==> all[i].policy == PolicyTypeView::Traffic(
                first[i],
                PolicyPhase::Gateway,
            )
            &&& 0 <= i < then.len() ==> all[first.len() + i].policy == PolicyTypeView::Traffic(
                then[i],
                PolicyPhase::Route,
            )
            &&& all.last().key == "llm:transformation"@
            &&& all.last().policy == PolicyTypeView::Traffic(
                TrafficPolicyView::Transformation(always(*transformation->Ok_0)),
                PolicyPhase::Gateway,
            )
        }),
{
}

/// The policies of the models that run before a model is selected are those of a gateway; those
/// that run after are authorization and rate limits, as they are set.
pub proof fn model_policies_run_before_and_after(c: LocalLLMConfig, config: GatewayConfig)
    ensures
        c.policies is None ==> c.gateway_rules(config).len() == 0 && c.route_rules().len() == 0
            && c.policy_refusal(config) is None,
        c.policies matches Some(p) ==> {
            let context = Some(config.context_of(PolicyIdView::Policy("listener/llm"@)));
            let part = p.route_part();
            &&& c.gateway_rules(config) == FilterOrPolicy::of_gateway(p.gateway).route_rules(context)
            &&& c.route_rules() == part.route_rules(None)
            &&& part.authorization == p.authorization
            &&& p.local_rate_limit@.len() == 0 ==> part.local_rate_limit is None
            &&& p.local_rate_limit@.len() > 0 ==> part.local_rate_limit == Some(
                crate::local::conditional::LocalRateLimitPolicy::Explicit(p.local_rate_limit),
            )
            &&& p.remote_rate_limit is None ==> part.remote_rate_limit is None
            &&& p.remote_rate_limit matches Some(r) ==> part.remote_rate_limit == Some(
                crate::local::conditional::LocalExplicitOrConditional::Explicit(r),
            )
            &&& c.policy_refusal(config) == (if part.refusal(None) is Some {
                part.refusal(None)
            } else {
                FilterOrPolicy::of_gateway(p.gateway).refusal(context)
            })
        },
{
}

/// Models are refused for their policies, else for the transformation that did not compile, else
/// for the first model that is refused.
pub proof fn model_configurations_are_refused_for_the_first_reason(
    c: LocalLLMConfig,
    config: GatewayConfig,
    transformation: Loaded<PolicyBody>,
)
    ensures
        c.refusal(config, transformation) == (if c.policy_refusal(config) is Some {
            c.policy_refusal(config)
        } else if transformation is Err {
            Some(transformation->Err_0@)
        } else {
            crate::local::error::first_refusal(
                c.models@,
                model_refusals(config.default_backend_tls),
            )
        }),
{
}

/// A control character without a short form is written as its code in two hexadecimal digits, the
/// letters in lower case.
pub proof fn control_characters_are_written_by_their_code(text: Text, c: char, high: char, low: char)
    requires
        (c as int) < 32,
        c as int != 8,
        c as int != 9,
        c as int != 10,
        c as int != 12,
        c as int != 13,
        high == (if (c as int) < 16 {
            '0'
        } else {
            '1'
        }),
        '0' <= low <= '9' || 'a' <= low <= 'f',
        c as int % 16 == (if low <= '9' {
            low as int - '0' as int
        } else {
            low as int - 'a' as int + 10
        }),
    ensures
        json_escaped(text.push(c)) == json_escaped(text) + seq!['\\', 'u', '0', '0', high, low],
{
    assert(text.push(c).drop_last() =~= text);
    assert(c != '"' && c != '\\');
}

/// A transformation that sets headers sets each of them in requests to its expression, in order,
/// and touches neither metadata nor the body nor responses.
pub proof fn header_transformations_set_headers_only(
    config: LocalTransformationConfig,
    set: Seq<(Text, Text)>,
    i: int,
)
    requires
        sets_headers(config, set),
    ensures
        config.response is None,
        config.request matches Some(t) && {
            &&& t.set@.len() == set.len()
            &&& 0 <= i < set.len() ==> t.set@[i].0@ == set[i].0 && t.set@[i].1@ == set[i].1
            &&& t.add@.len() == 0
            &&& t.remove@.len() == 0
            &&& t.metadata@.len() == 0
            &&& t.body is None
        },
{
    if 0 <= i < set.len() {
        assert(pair_texts(config.request->0.set@)[i] == set[i]);
    }
}

/// What is seen of the parts of a base URL and of what they set is what they hold.
pub proof fn base_urls_are_seen_as_they_are(u: UrlParts, b: Base)
    ensures
        u@.scheme == u.scheme@,
        u@.host == (match u.host {
            Some(h) => Some(h@),
            None => None,
        }),
        u@.port == u.port,
        u@.path == u.path@,
        b@.host.host == b.host.host@,
        b@.host.port == b.host.port,
        b@.prefix == (match b.prefix {
            Some(p) => Some(p@),
            None => None,
        }),
        b@.https == b.https,
{
}

} // verus!
