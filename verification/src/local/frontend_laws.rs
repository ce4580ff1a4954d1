//! Laws of the policies of connections that a configuration writes, and of what takes the place of
//! settings that are no longer recommended.

use std::sync::Arc;

use vstd::prelude::*;

use crate::json::Json;
use crate::local::config::GatewayConfig;
use crate::local::error::{one, Loaded};
use crate::local::frontend::{
    endpoint_host, frontend_policy, merge_refusal, merged_frontend, LocalFrontendPolicies,
};
use crate::local::migrate::{
    deprecated_settings, migrated, migrated_policies, migrated_settings, migration_refusal,
    object_at, replaced_from, replacement, Fields,
};
use crate::text::Text;
use crate::types::agent::{
    ListenerTargetView, PolicyTargetView, SimpleBackendReference, TargetedPolicyView,
};
use crate::types::frontend::{FrontendPolicy, LoggingPolicy, TracingConfig};
use crate::types::traffic::{BackendTrafficPolicy, PolicyTypeView};

verus! {

// ---------------------------------------------------------------------------------------------
// Policies of connections
// ---------------------------------------------------------------------------------------------

/// A policy of connections is attached to the gateway under a key of its own exactly if it is set.
/// An access log is attached with the place set up that it is sent to, tracing with the fields that
/// it adds and removes.
pub proof fn frontend_policies_are_attached_if_set(
    p: LocalFrontendPolicies,
    gateway: ListenerTargetView,
    t: TargetedPolicyView,
)
    ensures
        p.attached(gateway).contains(t) <==> {
            ||| p.http is Some && attached_as(
                t,
                gateway,
                "frontend/"@ + "http"@,
                FrontendPolicy::HTTP(p.http->0),
            )
            ||| p.tls is Some && attached_as(
                t,
                gateway,
                "frontend/"@ + "tls"@,
                FrontendPolicy::TLS(p.tls->0),
            )
            ||| p.tcp is Some && attached_as(
                t,
                gateway,
                "frontend/"@ + "tcp"@,
                FrontendPolicy::TCP(p.tcp->0),
            )
            ||| p.network_authorization is Some && attached_as(
                t,
                gateway,
                "frontend/"@ + "networkAuthorization"@,
                FrontendPolicy::NetworkAuthorization(p.network_authorization->0),
            )
            ||| p.proxy_protocol is Some && attached_as(
                t,
                gateway,
                "frontend/"@ + "proxy"@,
                FrontendPolicy::Proxy(p.proxy_protocol->0),
            )
            ||| p.access_log is Some && attached_as(
                t,
                gateway,
                "frontend/"@ + "accessLog"@,
                FrontendPolicy::AccessLog(Arc::new(p.access_log->0.initialized())),
            )
            ||| p.tracing is Some && attached_as(
                t,
                gateway,
                "frontend/"@ + "tracing"@,
                FrontendPolicy::Tracing(
                    Arc::new(crate::local::frontend::tracing_policy(p.tracing->0)),
                ),
            )
        },
{
    let o1 = match p.http {
        Some(x) => Some(frontend_policy("http"@, gateway, FrontendPolicy::HTTP(x))),
        None => None,
    };
    let o2 = match p.tls {
        Some(x) => Some(frontend_policy("tls"@, gateway, FrontendPolicy::TLS(x))),
        None => None,
    };
    let o3 = match p.tcp {
        Some(x) => Some(frontend_policy("tcp"@, gateway, FrontendPolicy::TCP(x))),
        None => None,
    };
    let o4 = match p.network_authorization {
        Some(x) => Some(
            frontend_policy(
                "networkAuthorization"@,
                gateway,
                FrontendPolicy::NetworkAuthorization(x),
            ),
        ),
        None => None,
    };
    let o5 = match p.proxy_protocol {
        Some(x) => Some(frontend_policy("proxy"@, gateway, FrontendPolicy::Proxy(x))),
        None => None,
    };
    let o6 = match p.access_log {
        Some(x) => Some(
            frontend_policy(
                "accessLog"@,
                gateway,
                FrontendPolicy::AccessLog(Arc::new(x.initialized())),
            ),
        ),
        None => None,
    };
    let o7 = match p.tracing {
        Some(x) => Some(
            frontend_policy(
                "tracing"@,
                gateway,
                FrontendPolicy::Tracing(Arc::new(crate::local::frontend::tracing_policy(x))),
            ),
        ),
        None => None,
    };
    lemma_seven(o1, o2, o3, o4, o5, o6, o7, t);
}

/// Whether a policy is attached to the gateway under the key.
pub open spec fn attached_as(
    t: TargetedPolicyView,
    gateway: ListenerTargetView,
    key: Text,
    policy: FrontendPolicy,
) -> bool {
    &&& t.key == key
    &&& t.name is None
    &&& t.target == PolicyTargetView::Gateway(gateway)
    &&& t.policy == PolicyTypeView::Frontend(policy)
}

proof fn lemma_seven<V>(
    o1: Option<V>,
    o2: Option<V>,
    o3: Option<V>,
    o4: Option<V>,
    o5: Option<V>,
    o6: Option<V>,
    o7: Option<V>,
    v: V,
)
    ensures
        (Seq::<V>::empty() + one(o1) + one(o2) + one(o3) + one(o4) + one(o5) + one(o6) + one(
            o7,
        )).contains(v) <==> (o1 == Some(v) || o2 == Some(v) || o3 == Some(v) || o4 == Some(v) || o5
            == Some(v) || o6 == Some(v) || o7 == Some(v)),
{
    let s0 = Seq::<V>::empty();
    let s1 = s0 + one(o1);
    let s2 = s1 + one(o2);
    let s3 = s2 + one(o3);
    let s4 = s3 + one(o4);
    let s5 = s4 + one(o5);
    let s6 = s5 + one(o6);
    lemma_one_more(s0, o1, v);
    lemma_one_more(s1, o2, v);
    lemma_one_more(s2, o3, v);
    lemma_one_more(s3, o4, v);
    lemma_one_more(s4, o5, v);
    lemma_one_more(s5, o6, v);
    lemma_one_more(s6, o7, v);
}

proof fn lemma_one_more<V>(s: Seq<V>, o: Option<V>, v: V)
    ensures
        (s + one(o)).contains(v) <==> s.contains(v) || o == Some(v),
{
    let t = s + one(o);
    if s.contains(v) {
        assert(t[s.index_of(v)] == v);
    }
    if o == Some(v) {
        assert(t[s.len() as int] == v);
    }
    if t.contains(v) {
        let i = t.index_of(v);
        if i < s.len() {
            assert(s[i] == v);
        }
    }
}

/// An access log whose settings name a place is sent there; the rest of it stays. One whose
/// settings name none stays as it is.
pub proof fn access_logs_are_sent_where_set(p: LoggingPolicy)
    ensures
        p.otlp is None ==> p.initialized() == p,
        p.otlp matches Some(config) ==> {
            let q = p.initialized();
            &&& q.filter == p.filter
            &&& q.add == p.add
            &&& q.remove == p.remove
            &&& q.otlp == p.otlp
            &&& q.access_log_policy matches Some(a) && a.config == config
        },
{
}

/// Tracing keeps its configuration, and adds and removes the fields that the configuration names.
pub proof fn tracing_keeps_its_configuration(config: Arc<TracingConfig>)
    ensures
        ({
            let p = crate::local::frontend::tracing_policy(config);
            &&& p.config == config
            &&& p.fields.add == config.attributes
            &&& p.fields.remove == config.remove
        }),
{
}

// ---------------------------------------------------------------------------------------------
// Settings that are no longer recommended
// ---------------------------------------------------------------------------------------------

/// Older settings of logging stand in for the access log if any of them is set, those of tracing
/// for tracing if they name an endpoint. Everything else of the policies stays as it is written.
pub proof fn older_settings_stand_in(
    deprecated: GatewayConfig,
    given: LocalFrontendPolicies,
    r: LocalFrontendPolicies,
)
    requires
        merged_frontend(deprecated, given, r),
    ensures
        r.http == given.http,
        r.tls == given.tls,
        r.tcp == given.tcp,
        r.network_authorization == given.network_authorization,
        r.proxy_protocol == given.proxy_protocol,
        ({
            let log = deprecated.logging;
            let set = log.fields.add@.len() > 0 || log.fields.remove@.len() > 0 || log.filter
                is Some;
            &&& !set ==> r.access_log == given.access_log
            &&& set ==> (r.access_log matches Some(a) && a.filter == log.filter && a.add
                == log.fields.add && a.remove == log.fields.remove && a.otlp is None
                && a.access_log_policy is None)
        }),
        deprecated.tracing is None || deprecated.tracing->0.endpoint is None ==> r.tracing
            == given.tracing,
        deprecated.tracing matches Some(t) ==> (t.endpoint is Some ==> (r.tracing matches Some(c)
            && {
            &&& c.attributes == t.fields.add
            &&& c.remove == t.fields.remove
            &&& c.resources@.len() == 0
            &&& c.random_sampling == t.random_sampling
            &&& c.client_sampling == t.client_sampling
            &&& c.path == t.path
            &&& c.protocol == t.protocol
            &&& c.provider_backend == SimpleBackendReference::InlineBackend(
                t.endpoint->0.host_port.target->Ok_0,
            )
            &&& t.headers@.len() == 0 ==> c.policies@.len() == 0
            &&& t.headers@.len() > 0 ==> c.policies@.len() == 1 && c.policies@[0]
                == BackendTrafficPolicy::Transformation(t.headers_transformation.compiled->Ok_0)
        })),
{
}

/// Older settings are refused beside the policies that they stand in for, logging first. Those of
/// tracing are refused if the transformation that sets headers did not compile, or if their
/// endpoint cannot be read.
pub proof fn older_settings_are_refused_beside_newer_ones(
    deprecated: GatewayConfig,
    given: LocalFrontendPolicies,
)
    ensures
        ({
            let log = deprecated.logging;
            let set = log.fields.add@.len() > 0 || log.fields.remove@.len() > 0 || log.filter
                is Some;
            merge_refusal(deprecated, given) == (if set && given.access_log is Some {
                Some(
                    "cannot use deprecated config.logging together with frontendPolicies.accessLog"@,
                )
            } else if deprecated.tracing is None {
                None
            } else if given.tracing is Some {
                Some("cannot use deprecated config.tracing together with frontendPolicies.tracing"@)
            } else if deprecated.tracing->0.headers@.len() > 0
                && deprecated.tracing->0.headers_transformation.compiled is Err {
                Some(deprecated.tracing->0.headers_transformation.compiled->Err_0@)
            } else if deprecated.tracing->0.endpoint is Some
                && deprecated.tracing->0.endpoint->0.host_port.target is Err {
                Some(
                    "failed parsing tracing endpoint: "@ + deprecated.tracing->0.endpoint->0.text@,
                )
            } else {
                None
            })
        }),
{
}

/// An endpoint is read without its scheme, and as it is if it has none of the known ones.
pub proof fn endpoints_are_read_without_their_scheme(host: Text)
    ensures
        endpoint_host("http://"@ + host) == host,
        endpoint_host("https://"@ + host) == host,
        endpoint_host("grpc://"@ + host) == host,
        !(exists|rest: Text| host == #[trigger] ("http://"@ + rest)) && !(exists|rest: Text|
            host == #[trigger] ("https://"@ + rest)) && !(exists|rest: Text|
            host == #[trigger] ("grpc://"@ + rest)) ==> endpoint_host(host) == host,
{
    reveal_strlit("http://");
    reveal_strlit("https://");
    reveal_strlit("grpc://");
    let a = "http://"@ + host;
    let b = "https://"@ + host;
    let c = "grpc://"@ + host;
    assert(a.subrange(0, 7) =~= "http://"@);
    assert(a.subrange(7, a.len() as int) =~= host);
    assert(b[4] == 's' && "http://"@[4] == ':');
    assert(b.subrange(0, 7)[4] == 's');
    assert(b.subrange(0, 8) =~= "https://"@);
    assert(b.subrange(8, b.len() as int) =~= host);
    assert(c[0] == 'g');
    assert("http://"@[0] == 'h' && "https://"@[0] == 'h');
    assert(c.subrange(0, 7)[0] == 'g');
    if c.len() >= 8 {
        assert(c.subrange(0, 8)[0] == 'g');
    }
    assert(c.subrange(0, 7) =~= "grpc://"@);
    assert(c.subrange(7, c.len() as int) =~= host);
    if host.len() >= 7 && host.subrange(0, 7) == "http://"@ {
        assert(host =~= "http://"@ + host.subrange(7, host.len() as int));
    }
    if host.len() >= 8 && host.subrange(0, 8) == "https://"@ {
        assert(host =~= "https://"@ + host.subrange(8, host.len() as int));
    }
    if host.len() >= 7 && host.subrange(0, 7) == "grpc://"@ {
        assert(host =~= "grpc://"@ + host.subrange(7, host.len() as int));
    }
}

// ---------------------------------------------------------------------------------------------
// Migration of documents
// ---------------------------------------------------------------------------------------------

/// A document has older settings exactly if its `config` is an object with `logging` or `tracing`.
pub proof fn documents_have_older_settings(cfg: Json)
    ensures
        deprecated_settings(cfg) is Some <==> cfg.fields().contains_key("config"@) && *cfg.fields()[
            "config"@] is Object && (cfg.fields()["config"@].fields().contains_key("logging"@)
            || cfg.fields()["config"@].fields().contains_key("tracing"@)),
        deprecated_settings(cfg) matches Some(c) ==> c == cfg.fields()["config"@].fields(),
{
}

/// In a migrated document the access log and tracing are among the frontend policies, and an older
/// `logging` among them is gone where an access log took its place. The other frontend policies
/// stay.
pub proof fn migrated_policies_take_their_place(
    policies: Fields,
    access_log: Option<Arc<Json>>,
    tracing: Option<Arc<Json>>,
    k: Text,
)
    ensures
        ({
            let r = migrated_policies(policies, access_log, tracing);
            &&& access_log matches Some(a) ==> r.contains_key("accessLog"@) && r["accessLog"@] == a
                && !r.contains_key("logging"@)
            &&& tracing matches Some(t) ==> r.contains_key("tracing"@) && r["tracing"@] == t
            &&& access_log is None && (k == "accessLog"@ || k == "logging"@) ==> (r.contains_key(k)
                <==> policies.contains_key(k)) && (r.contains_key(k) ==> r[k] == policies[k])
            &&& tracing is None && k == "tracing"@ ==> (r.contains_key(k)
                <==> policies.contains_key(k)) && (r.contains_key(k) ==> r[k] == policies[k])
            &&& k != "accessLog"@ && k != "logging"@ && k != "tracing"@ ==> (r.contains_key(k)
                <==> policies.contains_key(k)) && (r.contains_key(k) ==> r[k] == policies[k])
        }),
{
    reveal_strlit("accessLog");
    reveal_strlit("logging");
    reveal_strlit("tracing");
    assert("accessLog"@.len() == 9 && "logging"@.len() == 7 && "tracing"@.len() == 7);
    assert("logging"@[0] == 'l' && "tracing"@[0] == 't');
}

/// Migrated settings lose `tracing` if tracing was migrated, and of `logging` the filter and the
/// fields if logging was migrated; what is left of `logging` stays, unless nothing is. All other
/// settings stay.
pub proof fn migrated_settings_lose_what_was_migrated(
    given: Fields,
    log: bool,
    tracing: bool,
    r: Fields,
    k: Text,
)
    requires
        migrated_settings(given, log, tracing, r),
    ensures
        k != "logging"@ && k != "tracing"@ ==> (r.contains_key(k) <==> given.contains_key(k)) && (
        r.contains_key(k) ==> r[k] == given[k]),
        tracing ==> !r.contains_key("tracing"@),
        !tracing ==> (r.contains_key("tracing"@) <==> given.contains_key("tracing"@)) && (
        r.contains_key("tracing"@) ==> r["tracing"@] == given["tracing"@]),
        !log ==> (r.contains_key("logging"@) <==> given.contains_key("logging"@)) && (
        r.contains_key("logging"@) ==> r["logging"@] == given["logging"@]),
        log && given.contains_key("logging"@) && *given["logging"@] is Object && k != "filter"@ && k
            != "fields"@ && given["logging"@].fields().contains_key(k) ==> r.contains_key(
            "logging"@,
        ) && *r["logging"@] is Object && r["logging"@].fields().contains_key(k)
            && r["logging"@].fields()[k] == given["logging"@].fields()[k],
        log && r.contains_key("logging"@) ==> *r["logging"@] is Object
            && !r["logging"@].fields().contains_key("filter"@)
            && !r["logging"@].fields().contains_key("fields"@),
{
    if log && object_at(given, "logging"@) is Some && k != "filter"@ && k != "fields"@
        && given["logging"@].fields().contains_key(k) {
        let kept = given["logging"@].fields().remove("filter"@).remove("fields"@);
        assert(kept.contains_key(k));
        assert(kept != Map::<Text, Arc<Json>>::empty());
    }
}

/// A migrated document has the policies that replace the older settings among its frontend
/// policies, its settings without what was migrated, and everything else as it was.
pub proof fn migrated_documents_keep_the_rest(
    cfg: Json,
    log: bool,
    has_tracing: bool,
    access_log: Option<Loaded<Json>>,
    tracing: Option<Loaded<Json>>,
    r: Json,
    k: Text,
)
    requires
        migrated(cfg, log, has_tracing, access_log, tracing, r),
        migration_refusal(cfg, log, has_tracing, access_log, tracing) is None,
    ensures
        k != "config"@ && k != "frontendPolicies"@ ==> (r.fields().contains_key(k)
            <==> cfg.fields().contains_key(k)) && (r.fields().contains_key(k) ==> r.fields()[k]
            == cfg.fields()[k]),
        r.fields().contains_key("frontendPolicies"@) && *r.fields()["frontendPolicies"@] is Object,
        log ==> (access_log matches Some(Ok(a)) && r.fields()[
            "frontendPolicies"@].fields().contains_key("accessLog"@) && r.fields()[
            "frontendPolicies"@].fields()["accessLog"@] == a && !r.fields()[
            "frontendPolicies"@].fields().contains_key("logging"@)),
        has_tracing ==> (tracing matches Some(Ok(t)) ==> r.fields()[
            "frontendPolicies"@].fields().contains_key("tracing"@) && r.fields()[
            "frontendPolicies"@].fields()["tracing"@] == t),
        r.fields().contains_key("config"@) && *r.fields()["config"@] is Object,
        has_tracing ==> !r.fields()["config"@].fields().contains_key("tracing"@),
{
    let policies = match object_at(cfg.fields(), "frontendPolicies"@) {
        Some(p) => p,
        None => Map::empty(),
    };
    migrated_policies_take_their_place(
        policies,
        replacement(log, access_log),
        replacement(has_tracing, tracing),
        k,
    );
}

/// A migration is refused if the frontend policies are no object, else if logging is to be migrated
/// and its policy was not made, else if tracing is and its policy could not be made.
pub proof fn migrations_are_refused_for_the_first_reason(
    cfg: Json,
    log: bool,
    has_tracing: bool,
    access_log: Option<Loaded<Json>>,
    tracing: Option<Loaded<Json>>,
)
    ensures
        migration_refusal(cfg, log, has_tracing, access_log, tracing) == (
        if cfg.fields().contains_key("frontendPolicies"@) && !(*cfg.fields()["frontendPolicies"@]
            is Object) {
            Some("frontendPolicies must be an object"@)
        } else if log && access_log is None {
            Some("internal error: migrated accessLog was not generated"@)
        } else if log && access_log->0 is Err {
            Some(access_log->0->Err_0@)
        } else if has_tracing && tracing is Some && tracing->0 is Err {
            Some(tracing->0->Err_0@)
        } else {
            None
        }),
{
}

proof fn lemma_replaced_shift(front: Text, text: Text, part: Text, by: Text, i: int)
    requires
        0 <= i,
        part.len() > 0,
    ensures
        replaced_from(front + text, part, by, front.len() + i) == replaced_from(text, part, by, i),
    decreases text.len() - i,
{
    let whole = front + text;
    let n = front.len() as int;
    if i < text.len() {
        if i + part.len() <= text.len() {
            assert(whole.subrange(n + i, n + i + part.len()) =~= text.subrange(
                i,
                i + part.len(),
            ));
            lemma_replaced_shift(front, text, part, by, i + part.len());
        }
        lemma_replaced_shift(front, text, part, by, i + 1);
        assert(whole[n + i] == text[i]);
    }
}

/// Occurrences of a part are replaced from the left: where a text begins with the part the other
/// text stands in its place, where it does not its first character stays, and the rest goes on
/// likewise.
pub proof fn occurrences_are_replaced_from_the_left(text: Text, part: Text, by: Text, c: char)
    requires
        part.len() > 0,
    ensures
        replaced_from(Seq::empty(), part, by, 0) == Seq::<char>::empty(),
        replaced_from(part + text, part, by, 0) == by + replaced_from(text, part, by, 0),
        part.len() > text.len() + 1 || (seq![c] + text).take(part.len() as int) != part
            ==> replaced_from(seq![c] + text, part, by, 0) == seq![c] + replaced_from(
            text,
            part,
            by,
            0,
        ),
{
    let found = part + text;
    assert(found.subrange(0, part.len() as int) =~= part);
    lemma_replaced_shift(part, text, part, by, 0);
    let other = seq![c] + text;
    lemma_replaced_shift(seq![c], text, part, by, 0);
    assert(other[0] == c);
    if part.len() <= other.len() {
        assert(other.subrange(0, part.len() as int) =~= other.take(part.len() as int));
    }
}

} // verus!
