//! Laws of the policies that a configuration writes: each that is set has its effect, and none that
//! is not.

use std::sync::Arc;

use vstd::prelude::*;

use crate::local::backends::{full_policies, mcp_backend_policies, mcp_backend_refusal};
use crate::local::conditional::{
    compile_refusal, conditional_refusal, LocalConditionalPolicy, LocalExplicitOrConditional,
    LocalRateLimitPolicy,
};
use crate::local::error::{loaded, one, Loaded};
use crate::local::policies::{
    backend_policies, backend_refusal, inference_refusal, InferenceRoutingScope,
    LocalBackendPolicies, LocalTCPBackendPolicies, MCPLocalBackendPolicies,
    SimpleLocalBackendPolicies,
};
use crate::local::split::{
    AttachedPolicyContextView, FilterOrPolicy, Filters, LatePart, LocalGatewayPolicy,
};
use crate::types::policy::{
    always, JwtAuthentication, McpAuthentication, OidcPolicyView, PolicyBody,
};
use crate::types::traffic::{BackendTrafficPolicy, TrafficPolicyView};

verus! {

broadcast proof fn lemma_one_holds<V>(value: Option<V>, v: V)
    ensures
        #[trigger] one(value).contains(v) <==> value == Some(v),
{
    if value == Some(v) {
        assert(one(value)[0] == v);
    }
}

broadcast proof fn lemma_sum_holds<V>(a: Seq<V>, b: Seq<V>, v: V)
    ensures
        #[trigger] (a + b).contains(v) <==> a.contains(v) || b.contains(v),
{
    let s = a + b;
    if a.contains(v) {
        assert(s[a.index_of(v)] == v);
    }
    if b.contains(v) {
        assert(s[a.len() + b.index_of(v)] == v);
    }
    if s.contains(v) {
        let i = s.index_of(v);
        if i < a.len() {
            assert(a[i] == v);
        } else {
            assert(b[i - a.len()] == v);
        }
    }
}

broadcast proof fn lemma_sum_counts<V>(a: Seq<V>, b: Seq<V>)
    ensures
        #[trigger] (a + b).len() == a.len() + b.len(),
{
}

broadcast proof fn lemma_one_counts<V>(value: Option<V>)
    ensures
        #[trigger] one(value).len() == count(value is Some),
{
}

/// One for something that is set, nothing for what is not.
pub open spec fn count(set: bool) -> int {
    if set {
        1
    } else {
        0
    }
}

proof fn lemma_nine<V>(
    o1: Option<V>,
    o2: Option<V>,
    o3: Option<V>,
    o4: Option<V>,
    o5: Option<V>,
    o6: Option<V>,
    o7: Option<V>,
    o8: Option<V>,
    o9: Option<V>,
    v: V,
)
    ensures
        (Seq::<V>::empty() + one(o1) + one(o2) + one(o3) + one(o4) + one(o5) + one(o6) + one(o7)
            + one(o8) + one(o9)).contains(v) <==> (o1 == Some(v) || o2 == Some(v) || o3 == Some(v)
            || o4 == Some(v) || o5 == Some(v) || o6 == Some(v) || o7 == Some(v) || o8 == Some(v)
            || o9 == Some(v)),
        (Seq::<V>::empty() + one(o1) + one(o2) + one(o3) + one(o4) + one(o5) + one(o6) + one(o7)
            + one(o8) + one(o9)).len() == count(o1 is Some) + count(o2 is Some) + count(o3 is Some)
            + count(o4 is Some) + count(o5 is Some) + count(o6 is Some) + count(o7 is Some)
            + count(o8 is Some) + count(o9 is Some),
{
    let s0 = Seq::<V>::empty();
    let s1 = s0 + one(o1);
    lemma_one_holds(o1, v);
    lemma_sum_holds(s0, one(o1), v);
    let s2 = s1 + one(o2);
    lemma_one_holds(o2, v);
    lemma_sum_holds(s1, one(o2), v);
    let s3 = s2 + one(o3);
    lemma_one_holds(o3, v);
    lemma_sum_holds(s2, one(o3), v);
    let s4 = s3 + one(o4);
    lemma_one_holds(o4, v);
    lemma_sum_holds(s3, one(o4), v);
    let s5 = s4 + one(o5);
    lemma_one_holds(o5, v);
    lemma_sum_holds(s4, one(o5), v);
    let s6 = s5 + one(o6);
    lemma_one_holds(o6, v);
    lemma_sum_holds(s5, one(o6), v);
    let s7 = s6 + one(o7);
    lemma_one_holds(o7, v);
    lemma_sum_holds(s6, one(o7), v);
    let s8 = s7 + one(o8);
    lemma_one_holds(o8, v);
    lemma_sum_holds(s7, one(o8), v);
    let s9 = s8 + one(o9);
    lemma_one_holds(o9, v);
    lemma_sum_holds(s8, one(o9), v);
}

proof fn lemma_sixteen<V>(
    o1: Option<V>,
    o2: Option<V>,
    o3: Option<V>,
    o4: Option<V>,
    o5: Option<V>,
    o6: Option<V>,
    o7: Option<V>,
    o8: Option<V>,
    o9: Option<V>,
    o10: Option<V>,
    o11: Option<V>,
    o12: Option<V>,
    o13: Option<V>,
    o14: Option<V>,
    o15: Option<V>,
    o16: Option<V>,
    v: V,
)
    ensures
        (Seq::<V>::empty() + one(o1) + one(o2) + one(o3) + one(o4) + one(o5) + one(o6) + one(o7)
            + one(o8) + one(o9) + one(o10) + one(o11) + one(o12) + one(o13) + one(o14) + one(o15)
            + one(o16)).contains(v) <==> (o1 == Some(v) || o2 == Some(v) || o3 == Some(v)
            || o4 == Some(v) || o5 == Some(v) || o6 == Some(v) || o7 == Some(v) || o8 == Some(v)
            || o9 == Some(v) || o10 == Some(v) || o11 == Some(v) || o12 == Some(v) || o13 == Some(v)
            || o14 == Some(v) || o15 == Some(v) || o16 == Some(v)),
{
    let s0 = Seq::<V>::empty();
    let s1 = s0 + one(o1);
    lemma_one_holds(o1, v);
    lemma_sum_holds(s0, one(o1), v);
    let s2 = s1 + one(o2);
    lemma_one_holds(o2, v);
    lemma_sum_holds(s1, one(o2), v);
    let s3 = s2 + one(o3);
    lemma_one_holds(o3, v);
    lemma_sum_holds(s2, one(o3), v);
    let s4 = s3 + one(o4);
    lemma_one_holds(o4, v);
    lemma_sum_holds(s3, one(o4), v);
    let s5 = s4 + one(o5);
    lemma_one_holds(o5, v);
    lemma_sum_holds(s4, one(o5), v);
    let s6 = s5 + one(o6);
    lemma_one_holds(o6, v);
    lemma_sum_holds(s5, one(o6), v);
    let s7 = s6 + one(o7);
    lemma_one_holds(o7, v);
    lemma_sum_holds(s6, one(o7), v);
    let s8 = s7 + one(o8);
    lemma_one_holds(o8, v);
    lemma_sum_holds(s7, one(o8), v);
    let s9 = s8 + one(o9);
    lemma_one_holds(o9, v);
    lemma_sum_holds(s8, one(o9), v);
    let s10 = s9 + one(o10);
    lemma_one_holds(o10, v);
    lemma_sum_holds(s9, one(o10), v);
    let s11 = s10 + one(o11);
    lemma_one_holds(o11, v);
    lemma_sum_holds(s10, one(o11), v);
    let s12 = s11 + one(o12);
    lemma_one_holds(o12, v);
    lemma_sum_holds(s11, one(o12), v);
    let s13 = s12 + one(o13);
    lemma_one_holds(o13, v);
    lemma_sum_holds(s12, one(o13), v);
    let s14 = s13 + one(o14);
    lemma_one_holds(o14, v);
    lemma_sum_holds(s13, one(o14), v);
    let s15 = s14 + one(o15);
    lemma_one_holds(o15, v);
    lemma_sum_holds(s14, one(o15), v);
    let s16 = s15 + one(o16);
    lemma_one_holds(o16, v);
    lemma_sum_holds(s15, one(o16), v);
}

// ---------------------------------------------------------------------------------------------
// Policies of requests
// ---------------------------------------------------------------------------------------------

/// Which filters run.
#[verifier::spinoff_prover]
proof fn lemma_filters(p: Filters, v: TrafficPolicyView)
    ensures
        p.rules().contains(v) <==> match v {
            TrafficPolicyView::RequestHeaderModifier(e) => p.request_header_modifier is Some && v
                == TrafficPolicyView::RequestHeaderModifier(always(p.request_header_modifier->0@)),
            TrafficPolicyView::ResponseHeaderModifier(e) => p.response_header_modifier is Some && v
                == TrafficPolicyView::ResponseHeaderModifier((*p.response_header_modifier->0)@),
            TrafficPolicyView::RequestRedirect(e) => p.request_redirect is Some && v
                == TrafficPolicyView::RequestRedirect(always(p.request_redirect->0)),
            TrafficPolicyView::UrlRewrite(e) => p.url_rewrite is Some && v
                == TrafficPolicyView::UrlRewrite(always(p.url_rewrite->0)),
            TrafficPolicyView::RequestMirror(e) => p.request_mirror is Some && v
                == TrafficPolicyView::RequestMirror(seq![p.request_mirror->0]),
            TrafficPolicyView::DirectResponse(e) => p.direct_response is Some && v
                == TrafficPolicyView::DirectResponse(p.direct_response->0.policy()),
            TrafficPolicyView::CORS(e) => p.cors is Some && v == TrafficPolicyView::CORS(
                always(p.cors->0),
            ),
            _ => false,
        },
        p.rules().len() == count(p.request_header_modifier is Some) + count(
            p.response_header_modifier is Some,
        ) + count(p.request_redirect is Some) + count(p.url_rewrite is Some) + count(
            p.request_mirror is Some,
        ) + count(p.direct_response is Some) + count(p.cors is Some),
{
    broadcast use lemma_one_holds, lemma_sum_holds, lemma_sum_counts, lemma_one_counts;

}

/// Which authentication runs.
#[verifier::spinoff_prover]
proof fn lemma_authentication(p: FilterOrPolicy, v: TrafficPolicyView)
    ensures
        p.authentication_rules().contains(v) <==> match v {
            TrafficPolicyView::JwtAuth(e) => {
                ||| loaded(p.mcp_authentication) is Some && v == TrafficPolicyView::JwtAuth(
                    always(
                        JwtAuthentication {
                            jwt: loaded(p.mcp_authentication)->0.jwt_validator,
                            mcp: loaded(p.mcp_authentication),
                        },
                    ),
                )
                ||| loaded(p.jwt_auth) is Some && v == TrafficPolicyView::JwtAuth(
                    always(JwtAuthentication { jwt: loaded(p.jwt_auth)->0, mcp: None }),
                )
            },
            TrafficPolicyView::AI(e) => p.ai is Some && v == TrafficPolicyView::AI((*p.ai->0)@),
            TrafficPolicyView::BasicAuth(e) => loaded(p.basic_auth) is Some && v
                == TrafficPolicyView::BasicAuth(always(*loaded(p.basic_auth)->0)),
            TrafficPolicyView::APIKey(e) => p.api_key is Some && v == TrafficPolicyView::APIKey(
                always(p.api_key->0),
            ),
            _ => false,
        },
        p.authentication_rules().len() == count(loaded(p.mcp_authentication) is Some) + count(
            p.ai is Some,
        ) + count(loaded(p.jwt_auth) is Some) + count(loaded(p.basic_auth) is Some) + count(
            p.api_key is Some,
        ),
{
    broadcast use lemma_one_holds, lemma_sum_holds, lemma_sum_counts, lemma_one_counts;

}

/// Which of the policies run that come last.
#[verifier::spinoff_prover]
proof fn lemma_late(p: LatePart, v: TrafficPolicyView)
    ensures
        p.rules().contains(v) <==> match v {
            TrafficPolicyView::Transformation(e) => p.transformations is Some && v
                == TrafficPolicyView::Transformation(p.transformations->0.transformation()),
            TrafficPolicyView::Csrf(e) => p.csrf is Some && v == TrafficPolicyView::Csrf(
                always(p.csrf->0),
            ),
            TrafficPolicyView::Authorization(e) => p.authorization == Some(e),
            TrafficPolicyView::ExtAuthz(e) => p.ext_authz is Some && v
                == TrafficPolicyView::ExtAuthz(p.ext_authz->0.policy()),
            TrafficPolicyView::ExtProc(e) => p.ext_proc is Some && v
                == TrafficPolicyView::ExtProc(p.ext_proc->0.policy()),
            TrafficPolicyView::LocalRateLimit(e) => p.local_rate_limit is Some
                && !p.local_rate_limit->0.none() && v == TrafficPolicyView::LocalRateLimit(
                p.local_rate_limit->0.policy(),
            ),
            TrafficPolicyView::RemoteRateLimit(e) => p.remote_rate_limit is Some && v
                == TrafficPolicyView::RemoteRateLimit(p.remote_rate_limit->0.policy()),
            TrafficPolicyView::Timeout(e) => p.timeout == Some(e),
            TrafficPolicyView::Retry(e) => p.retry == Some(e),
            _ => false,
        },
        p.rules().len() == count(p.transformations is Some) + count(p.csrf is Some) + count(
            p.authorization is Some,
        ) + count(p.ext_authz is Some) + count(p.ext_proc is Some) + count(
            p.local_rate_limit is Some && !p.local_rate_limit->0.none(),
        ) + count(p.remote_rate_limit is Some) + count(p.timeout is Some) + count(p.retry is Some),
{
    lemma_nine(
        match p.transformations {
            Some(t) => Some(TrafficPolicyView::Transformation(t.transformation())),
            None => None,
        },
        match p.csrf {
            Some(c) => Some(TrafficPolicyView::Csrf(always(c))),
            None => None,
        },
        match p.authorization {
            Some(a) => Some(TrafficPolicyView::Authorization(a)),
            None => None,
        },
        match p.ext_authz {
            Some(a) => Some(TrafficPolicyView::ExtAuthz(a.policy())),
            None => None,
        },
        match p.ext_proc {
            Some(a) => Some(TrafficPolicyView::ExtProc(a.policy())),
            None => None,
        },
        match p.local_rate_limit {
            Some(l) => if l.none() {
                None
            } else {
                Some(TrafficPolicyView::LocalRateLimit(l.policy()))
            },
            None => None,
        },
        match p.remote_rate_limit {
            Some(l) => Some(TrafficPolicyView::RemoteRateLimit(l.policy())),
            None => None,
        },
        match p.timeout {
            Some(t) => Some(TrafficPolicyView::Timeout(t)),
            None => None,
        },
        match p.retry {
            Some(r) => Some(TrafficPolicyView::Retry(r)),
            None => None,
        },
        v,
    );
}

/// A policy of requests runs exactly if it is set, as it is written. A filter, the model policy,
/// the check of origins, authorization, timeouts and retries run as they are; what is read from
/// elsewhere runs as it was loaded; what may be conditional runs under its conditions. A local rate
/// limit without entries does not run. What OpenID Connect needs comes from where the policy is
/// attached.
pub proof fn policies_run_if_set(
    p: FilterOrPolicy,
    attached: Option<AttachedPolicyContextView>,
    v: TrafficPolicyView,
)
    ensures
        p.route_rules(attached).contains(v) <==> match v {
            TrafficPolicyView::RequestHeaderModifier(e) => p.request_header_modifier is Some && v
                == TrafficPolicyView::RequestHeaderModifier(always(p.request_header_modifier->0@)),
            TrafficPolicyView::ResponseHeaderModifier(e) => p.response_header_modifier is Some && v
                == TrafficPolicyView::ResponseHeaderModifier((*p.response_header_modifier->0)@),
            TrafficPolicyView::RequestRedirect(e) => p.request_redirect is Some && v
                == TrafficPolicyView::RequestRedirect(always(p.request_redirect->0)),
            TrafficPolicyView::UrlRewrite(e) => p.url_rewrite is Some && v
                == TrafficPolicyView::UrlRewrite(always(p.url_rewrite->0)),
            TrafficPolicyView::RequestMirror(e) => p.request_mirror is Some && v
                == TrafficPolicyView::RequestMirror(seq![p.request_mirror->0]),
            TrafficPolicyView::DirectResponse(e) => p.direct_response is Some && v
                == TrafficPolicyView::DirectResponse(p.direct_response->0.policy()),
            TrafficPolicyView::CORS(e) => p.cors is Some && v == TrafficPolicyView::CORS(
                always(p.cors->0),
            ),
            TrafficPolicyView::JwtAuth(e) => {
                ||| loaded(p.mcp_authentication) is Some && v == TrafficPolicyView::JwtAuth(
                    always(
                        JwtAuthentication {
                            jwt: loaded(p.mcp_authentication)->0.jwt_validator,
                            mcp: loaded(p.mcp_authentication),
                        },
                    ),
                )
                ||| loaded(p.jwt_auth) is Some && v == TrafficPolicyView::JwtAuth(
                    always(JwtAuthentication { jwt: loaded(p.jwt_auth)->0, mcp: None }),
                )
            },
            TrafficPolicyView::AI(e) => p.ai is Some && v == TrafficPolicyView::AI((*p.ai->0)@),
            TrafficPolicyView::BasicAuth(e) => loaded(p.basic_auth) is Some && v
                == TrafficPolicyView::BasicAuth(always(*loaded(p.basic_auth)->0)),
            TrafficPolicyView::APIKey(e) => p.api_key is Some && v == TrafficPolicyView::APIKey(
                always(p.api_key->0),
            ),
            TrafficPolicyView::Oidc(e) => p.oidc is Some && v == TrafficPolicyView::Oidc(
                always(
                    OidcPolicyView {
                        policy_id: attached->0.oidc_policy_id,
                        provider: p.oidc->0->Ok_0,
                        cookie_encoder: attached->0.oidc_cookie_encoder->0,
                    },
                ),
            ),
            TrafficPolicyView::Transformation(e) => p.transformations is Some && v
                == TrafficPolicyView::Transformation(p.transformations->0.transformation()),
            TrafficPolicyView::Csrf(e) => p.csrf is Some && v == TrafficPolicyView::Csrf(
                always(p.csrf->0),
            ),
            TrafficPolicyView::Authorization(e) => p.authorization == Some(e),
            TrafficPolicyView::ExtAuthz(e) => p.ext_authz is Some && v
                == TrafficPolicyView::ExtAuthz(p.ext_authz->0.policy()),
            TrafficPolicyView::ExtProc(e) => p.ext_proc is Some && v
                == TrafficPolicyView::ExtProc(p.ext_proc->0.policy()),
            TrafficPolicyView::LocalRateLimit(e) => p.local_rate_limit is Some
                && !p.local_rate_limit->0.none() && v == TrafficPolicyView::LocalRateLimit(
                p.local_rate_limit->0.policy(),
            ),
            TrafficPolicyView::RemoteRateLimit(e) => p.remote_rate_limit is Some && v
                == TrafficPolicyView::RemoteRateLimit(p.remote_rate_limit->0.policy()),
            TrafficPolicyView::Timeout(e) => p.timeout == Some(e),
            TrafficPolicyView::Retry(e) => p.retry == Some(e),
            TrafficPolicyView::HostRewrite(_) => false,
        },
{
    let a = p.filters().rules();
    let b = p.authentication_rules();
    let c = p.late_part().rules();
    let d = one(p.oidc_rule(attached));
    lemma_filters(p.filters(), v);
    lemma_authentication(p, v);
    lemma_late(p.late_part(), v);
    lemma_one_holds(p.oidc_rule(attached), v);
    lemma_sum_holds(a, b, v);
    lemma_sum_holds(a + b, c, v);
    lemma_sum_holds(a + b + c, d, v);
}

/// The authentication of MCP clients takes precedence over that by JWT: its rule comes first of the
/// two.
pub proof fn mcp_authentication_comes_before_jwt(
    p: FilterOrPolicy,
    attached: Option<AttachedPolicyContextView>,
    m: Arc<McpAuthentication>,
)
    requires
        p.mcp_authentication == Some(Ok::<Arc<McpAuthentication>, String>(m)),
    ensures
        ({
            let rules = p.route_rules(attached);
            exists|i: int|
                0 <= i < rules.len() && #[trigger] rules[i] == TrafficPolicyView::JwtAuth(
                    always(JwtAuthentication { jwt: m.jwt_validator, mcp: Some(m) }),
                ) && forall|j: int| 0 <= j < i ==> !((#[trigger] rules[j]) is JwtAuth)
        }),
{
    let rules = p.route_rules(attached);
    let filters = p.filters().rules();
    let n = filters.len() as int;
    let auth = p.authentication_rules();
    lemma_first_authentication(p, m);
    assert(rules[n] == auth[0]) by {
        let late = p.late_part().rules();
        let last = one(p.oidc_rule(attached));
        assert(rules == filters + auth + late + last);
        assert((filters + auth)[n] == auth[0]);
        assert((filters + auth + late)[n] == auth[0]);
    }
    assert forall|j: int| 0 <= j < n implies !((#[trigger] rules[j]) is JwtAuth) by {
        assert(rules[j] == filters[j]);
        assert(filters.contains(filters[j]));
        lemma_filters_are_no_authentication(p, filters[j]);
    }
}

proof fn lemma_first_authentication(p: FilterOrPolicy, m: Arc<McpAuthentication>)
    requires
        p.mcp_authentication == Some(Ok::<Arc<McpAuthentication>, String>(m)),
    ensures
        p.authentication_rules().len() > 0,
        p.authentication_rules()[0] == TrafficPolicyView::JwtAuth(
            always(JwtAuthentication { jwt: m.jwt_validator, mcp: Some(m) }),
        ),
{
}

proof fn lemma_filters_are_no_authentication(p: FilterOrPolicy, v: TrafficPolicyView)
    requires
        p.filters().rules().contains(v),
    ensures
        !(v is JwtAuth),
{
    lemma_filters(p.filters(), v);
}

/// Each policy of requests runs at most once, except that authentication by JWT may run for MCP
/// clients and for others: there are as many rules as there are policies set.
pub proof fn policies_run_once(
    p: FilterOrPolicy,
    attached: Option<AttachedPolicyContextView>,
    v: TrafficPolicyView,
)
    ensures
        p.route_rules(attached).len() == count(p.request_header_modifier is Some) + count(
            p.response_header_modifier is Some,
        ) + count(p.request_redirect is Some) + count(p.url_rewrite is Some) + count(
            p.request_mirror is Some,
        ) + count(p.direct_response is Some) + count(p.cors is Some) + count(
            loaded(p.mcp_authentication) is Some,
        ) + count(p.ai is Some) + count(loaded(p.jwt_auth) is Some) + count(
            loaded(p.basic_auth) is Some,
        ) + count(p.api_key is Some) + count(p.oidc is Some) + count(p.transformations is Some)
            + count(p.csrf is Some) + count(p.authorization is Some) + count(p.ext_authz is Some)
            + count(p.ext_proc is Some) + count(
            p.local_rate_limit is Some && !p.local_rate_limit->0.none(),
        ) + count(p.remote_rate_limit is Some) + count(p.timeout is Some) + count(p.retry is Some),
{
    lemma_filters(p.filters(), v);
    lemma_authentication(p, v);
    lemma_late(p.late_part(), v);
}

/// Policies are refused in a fixed order of reasons: the direct response, the authentication of MCP
/// clients, TLS to the backend, authentication by JWT, by OpenID Connect, which has to be attached
/// and needs a secret, and by passwords, then transformations, the authorization server, external
/// processing and rate limits. If none of these is a reason they are accepted.
pub proof fn policies_are_refused_for_the_first_reason(
    p: FilterOrPolicy,
    attached: Option<AttachedPolicyContextView>,
)
    ensures
        p.refusal(attached) == (if p.direct_response is Some && p.direct_response->0.refusal()
            is Some {
            p.direct_response->0.refusal()
        } else if p.mcp_authentication is Some && p.mcp_authentication->0 is Err {
            Some(p.mcp_authentication->0->Err_0@)
        } else if p.backend_tls is Some && p.backend_tls->0 is Err {
            Some(p.backend_tls->0->Err_0@)
        } else if p.jwt_auth is Some && p.jwt_auth->0 is Err {
            Some(p.jwt_auth->0->Err_0@)
        } else if p.oidc is Some && attached is None {
            Some("oidc policies must be attached"@)
        } else if p.oidc is Some && attached->0.oidc_cookie_encoder is None {
            Some("OIDC_COOKIE_SECRET is required when oidc is configured"@)
        } else if p.oidc is Some && p.oidc->0 is Err {
            Some(p.oidc->0->Err_0@)
        } else if p.basic_auth is Some && p.basic_auth->0 is Err {
            Some(p.basic_auth->0->Err_0@)
        } else if p.transformations is Some && p.transformations->0.transformation_refusal()
            is Some {
            p.transformations->0.transformation_refusal()
        } else if p.ext_authz is Some && p.ext_authz->0.refusal() is Some {
            p.ext_authz->0.refusal()
        } else if p.ext_proc is Some && p.ext_proc->0.refusal() is Some {
            p.ext_proc->0.refusal()
        } else if p.local_rate_limit is Some && !p.local_rate_limit->0.none()
            && p.local_rate_limit->0.refusal() is Some {
            p.local_rate_limit->0.refusal()
        } else if p.remote_rate_limit is Some && p.remote_rate_limit->0.refusal() is Some {
            p.remote_rate_limit->0.refusal()
        } else {
            None
        }),
{
}

/// The policies of a gateway are the same policies as those of a route, with nothing else set.
pub proof fn gateway_policies_are_policies(g: LocalGatewayPolicy)
    ensures
        ({
            let p = FilterOrPolicy::of_gateway(g);
            &&& p.oidc == g.oidc
            &&& p.jwt_auth == g.jwt_auth
            &&& p.ext_authz == g.ext_authz
            &&& p.ext_proc == g.ext_proc
            &&& p.ext_mcp == g.ext_mcp
            &&& p.transformations == g.transformations
            &&& p.basic_auth == g.basic_auth
            &&& p.api_key == g.api_key
            &&& p.request_header_modifier is None
            &&& p.response_header_modifier is None
            &&& p.request_redirect is None
            &&& p.url_rewrite is None
            &&& p.request_mirror is None
            &&& p.direct_response is None
            &&& p.cors is None
            &&& p.mcp_authorization is None
            &&& p.authorization is None
            &&& p.mcp_authentication is None
            &&& p.a2a is None
            &&& p.ai is None
            &&& p.backend_tls is None
            &&& p.backend_tunnel is None
            &&& p.backend_auth is None
            &&& p.local_rate_limit is None
            &&& p.remote_rate_limit is None
            &&& p.csrf is None
            &&& p.timeout is None
            &&& p.retry is None
        }),
{
}

// ---------------------------------------------------------------------------------------------
// Policies of backends
// ---------------------------------------------------------------------------------------------

/// A policy of a route goes to its backends exactly if it is one of backends and is set.
pub proof fn routes_give_their_backend_policies(p: FilterOrPolicy, v: BackendTrafficPolicy)
    ensures
        p.backend_rules().contains(v) <==> match v {
            BackendTrafficPolicy::McpAuthorization(x) => p.mcp_authorization == Some(x),
            BackendTrafficPolicy::A2a(x) => p.a2a == Some(x),
            BackendTrafficPolicy::BackendTLS(x) => p.backend_tls == Some(
                Ok::<Arc<PolicyBody>, String>(x),
            ),
            BackendTrafficPolicy::Tunnel(x) => p.backend_tunnel == Some(x),
            BackendTrafficPolicy::BackendAuth(x) => p.backend_auth == Some(x),
            BackendTrafficPolicy::ExtMcp(x) => p.ext_mcp == Some(x),
            _ => false,
        },
        p.backend_rules().len() <= 6,
{
    broadcast use lemma_one_holds, lemma_sum_holds;

}

#[verifier::rlimit(60)]
#[verifier::spinoff_prover]
proof fn lemma_backend_policies(p: LocalBackendPolicies, v: BackendTrafficPolicy)
    ensures
        p.policies().contains(v) <==> {
            ||| p.simple.tcp is Some && v == BackendTrafficPolicy::TCP(p.simple.tcp->0)
            ||| p.simple.backend_tunnel is Some
                && v == BackendTrafficPolicy::Tunnel(p.simple.backend_tunnel->0)
            ||| p.simple.http is Some && v == BackendTrafficPolicy::HTTP(p.simple.http->0)
            ||| p.simple.request_header_modifier is Some
                && v
                    == BackendTrafficPolicy::RequestHeaderModifier(p.simple.request_header_modifier->0)
            ||| p.response_header_modifier is Some
                && v == BackendTrafficPolicy::ResponseHeaderModifier(p.response_header_modifier->0)
            ||| p.request_redirect is Some
                && v == BackendTrafficPolicy::RequestRedirect(p.request_redirect->0)
            ||| p.simple.transformations is Some
                && v == BackendTrafficPolicy::Transformation(p.simple.transformations->0)
            ||| p.mcp_authorization is Some
                && v == BackendTrafficPolicy::McpAuthorization(p.mcp_authorization->0)
            ||| p.ext_mcp is Some && v == BackendTrafficPolicy::ExtMcp(p.ext_mcp->0)
            ||| p.a2a is Some && v == BackendTrafficPolicy::A2a(p.a2a->0)
            ||| p.inference_routing is Some
                && v == BackendTrafficPolicy::InferenceRouting(p.inference_routing->0)
            ||| loaded(p.simple.backend_tls) is Some
                && v == BackendTrafficPolicy::BackendTLS(loaded(p.simple.backend_tls)->0)
            ||| p.simple.backend_auth is Some
                && v == BackendTrafficPolicy::BackendAuth(p.simple.backend_auth->0)
            ||| p.ext_authz is Some && v == BackendTrafficPolicy::ExtAuthz(p.ext_authz->0)
            ||| p.ai is Some && v == BackendTrafficPolicy::AI(p.ai->0)
            ||| loaded(p.health) is Some && v == BackendTrafficPolicy::Health(loaded(p.health)->0)
        },
{
    lemma_sixteen(
        match p.simple.tcp {
            Some(x) => Some(BackendTrafficPolicy::TCP(x)),
            None => None,
        },
        match p.simple.backend_tunnel {
            Some(x) => Some(BackendTrafficPolicy::Tunnel(x)),
            None => None,
        },
        match p.simple.http {
            Some(x) => Some(BackendTrafficPolicy::HTTP(x)),
            None => None,
        },
        match p.simple.request_header_modifier {
            Some(x) => Some(BackendTrafficPolicy::RequestHeaderModifier(x)),
            None => None,
        },
        match p.response_header_modifier {
            Some(x) => Some(BackendTrafficPolicy::ResponseHeaderModifier(x)),
            None => None,
        },
        match p.request_redirect {
            Some(x) => Some(BackendTrafficPolicy::RequestRedirect(x)),
            None => None,
        },
        match p.simple.transformations {
            Some(x) => Some(BackendTrafficPolicy::Transformation(x)),
            None => None,
        },
        match p.mcp_authorization {
            Some(x) => Some(BackendTrafficPolicy::McpAuthorization(x)),
            None => None,
        },
        match p.ext_mcp {
            Some(x) => Some(BackendTrafficPolicy::ExtMcp(x)),
            None => None,
        },
        match p.a2a {
            Some(x) => Some(BackendTrafficPolicy::A2a(x)),
            None => None,
        },
        match p.inference_routing {
            Some(x) => Some(BackendTrafficPolicy::InferenceRouting(x)),
            None => None,
        },
        match loaded(p.simple.backend_tls) {
            Some(x) => Some(BackendTrafficPolicy::BackendTLS(x)),
            None => None,
        },
        match p.simple.backend_auth {
            Some(x) => Some(BackendTrafficPolicy::BackendAuth(x)),
            None => None,
        },
        match p.ext_authz {
            Some(x) => Some(BackendTrafficPolicy::ExtAuthz(x)),
            None => None,
        },
        match p.ai {
            Some(x) => Some(BackendTrafficPolicy::AI(x)),
            None => None,
        },
        match loaded(p.health) {
            Some(x) => Some(BackendTrafficPolicy::Health(x)),
            None => None,
        },
        v,
    );
}

/// A policy of a backend is in force exactly if it is set, with the value that is set.
#[verifier::rlimit(60)]
#[verifier::spinoff_prover]
pub proof fn backend_policies_are_those_set(p: LocalBackendPolicies, v: BackendTrafficPolicy)
    ensures
        p.policies().contains(v) <==> match v {
            BackendTrafficPolicy::TCP(x) => p.simple.tcp == Some(x),
            BackendTrafficPolicy::Tunnel(x) => p.simple.backend_tunnel == Some(x),
            BackendTrafficPolicy::HTTP(x) => p.simple.http == Some(x),
            BackendTrafficPolicy::RequestHeaderModifier(x) => p.simple.request_header_modifier
                == Some(x),
            BackendTrafficPolicy::ResponseHeaderModifier(x) => p.response_header_modifier
                == Some(x),
            BackendTrafficPolicy::RequestRedirect(x) => p.request_redirect == Some(x),
            BackendTrafficPolicy::Transformation(x) => p.simple.transformations == Some(x),
            BackendTrafficPolicy::McpAuthorization(x) => p.mcp_authorization == Some(x),
            BackendTrafficPolicy::ExtMcp(x) => p.ext_mcp == Some(x),
            BackendTrafficPolicy::A2a(x) => p.a2a == Some(x),
            BackendTrafficPolicy::InferenceRouting(x) => p.inference_routing == Some(x),
            BackendTrafficPolicy::BackendTLS(x) => p.simple.backend_tls == Some(
                Ok::<Arc<PolicyBody>, String>(x),
            ),
            BackendTrafficPolicy::BackendAuth(x) => p.simple.backend_auth == Some(x),
            BackendTrafficPolicy::ExtAuthz(x) => p.ext_authz == Some(x),
            BackendTrafficPolicy::AI(x) => p.ai == Some(x),
            BackendTrafficPolicy::Health(x) => p.health == Some(Ok::<Arc<PolicyBody>, String>(x)),
            _ => false,
        },
{
    lemma_backend_policies(p, v);
}

/// The policies of a backend are refused exactly if the settings of TLS could not be loaded, or
/// else if those of health could not.
pub proof fn backend_policies_are_refused_for_their_settings(p: LocalBackendPolicies)
    ensures
        p.refusal() == (if p.simple.backend_tls is Some && p.simple.backend_tls->0 is Err {
            Some(p.simple.backend_tls->0->Err_0@)
        } else if p.health is Some && p.health->0 is Err {
            Some("health.unhealthyExpression: "@ + p.health->0->Err_0@)
        } else {
            None
        }),
        backend_refusal(Some(p)) == p.refusal(),
        backend_refusal(None) is None,
        backend_policies(Some(p)) == p.policies(),
        backend_policies(None).len() == 0,
{
}

/// Policies of a TCP backend are in force exactly if they are set.
pub proof fn tcp_backend_policies_are_those_set(
    p: LocalTCPBackendPolicies,
    v: BackendTrafficPolicy,
)
    ensures
        p.policies().contains(v) <==> match v {
            BackendTrafficPolicy::BackendTLS(x) => p.backend_tls == Some(
                Ok::<Arc<PolicyBody>, String>(x),
            ),
            BackendTrafficPolicy::Tunnel(x) => p.backend_tunnel == Some(x),
            _ => false,
        },
        p.policies().len() <= 2,
{
    broadcast use lemma_one_holds, lemma_sum_holds;

}

/// Simple policies of a backend are policies of a backend with nothing else set; those of an MCP
/// target add MCP authorization and processing.
pub proof fn narrower_policies_are_backend_policies(
    s: SimpleLocalBackendPolicies,
    m: MCPLocalBackendPolicies,
)
    ensures
        ({
            let p = LocalBackendPolicies::of_simple(s);
            let q = m.full();
            &&& p.simple == s
            &&& p.response_header_modifier is None && p.request_redirect is None && p.health is None
                && p.ext_authz is None && p.mcp_authorization is None && p.ext_mcp is None && p.a2a
                is None && p.inference_routing is None && p.ai is None
            &&& q.simple == m.simple
            &&& q.mcp_authorization == m.mcp_authorization
            &&& q.ext_mcp == m.ext_mcp
            &&& q.response_header_modifier is None && q.request_redirect is None && q.health is None
                && q.ext_authz is None && q.a2a is None && q.inference_routing is None && q.ai
                is None
            &&& full_policies(Some(m)) == Some(q)
            &&& full_policies(None) is None
        }),
{
}

/// A backend that an MCP target writes in place has the policies of the target, and behind them the
/// default settings of TLS exactly if the target is reached by TLS.
pub proof fn mcp_targets_get_tls_by_their_scheme(
    policies: Option<MCPLocalBackendPolicies>,
    tls: bool,
    default_tls: Loaded<PolicyBody>,
    i: int,
)
    ensures
        ({
            let own = match policies {
                Some(m) => m.full().policies(),
                None => Seq::empty(),
            };
            let all = mcp_backend_policies(policies, tls, default_tls);
            &&& 0 <= i < own.len() ==> all[i] == own[i]
            &&& !tls ==> all.len() == own.len()
            &&& tls ==> all.len() == own.len() + 1
            &&& tls && default_tls is Ok ==> all.last() == BackendTrafficPolicy::BackendTLS(
                default_tls->Ok_0,
            )
            &&& mcp_backend_refusal(policies, tls, default_tls) == (match policies {
                Some(m) => if m.full().refusal() is Some {
                    m.full().refusal()
                } else if tls && default_tls is Err {
                    Some(default_tls->Err_0@)
                } else {
                    None
                },
                None => if tls && default_tls is Err {
                    Some(default_tls->Err_0@)
                } else {
                    None
                },
            })
        }),
{
}

/// Inference routing is accepted on the backend of a route that is a service, and nowhere else.
pub proof fn inference_routing_is_for_services(
    policies: Option<LocalBackendPolicies>,
    scope: InferenceRoutingScope,
)
    ensures
        policies is None || policies->0.inference_routing is None ==> inference_refusal(
            policies,
            scope,
        ) is None,
        policies is Some && policies->0.inference_routing is Some ==> match scope {
            InferenceRoutingScope::ServiceRouteBackend => inference_refusal(policies, scope)
                is None,
            InferenceRoutingScope::NonServiceRouteBackend => inference_refusal(policies, scope)
                == Some("inferenceRouting is only supported on service route backends"@),
            InferenceRoutingScope::NamedBackend => inference_refusal(policies, scope) == Some(
                "inferenceRouting is only supported on service route backends, not named backends"@,
            ),
            InferenceRoutingScope::AIProviderPolicies => inference_refusal(policies, scope) == Some(
                "inferenceRouting is only supported on service route backends, not AI provider policies"@,
            ),
        },
{
}

// ---------------------------------------------------------------------------------------------
// Conditional policies
// ---------------------------------------------------------------------------------------------

/// A policy that is written plainly applies to every request. Conditional policies apply in the
/// order in which they are written, each under its condition.
pub proof fn policies_apply_under_their_conditions<T: View>(
    p: LocalExplicitOrConditional<T>,
    i: int,
)
    ensures
        p matches LocalExplicitOrConditional::Explicit(x) ==> p.policy().len() == 1 && p.policy()[0]
            == (x@, None::<crate::types::policy::Expression>) && p.refusal() is None,
        p matches LocalExplicitOrConditional::Conditional(list) ==> {
            &&& p.policy().len() == list.conditional@.len()
            &&& 0 <= i < list.conditional@.len() ==> p.policy()[i].0
                == (*list.conditional@[i].policy)@ && (list.conditional@[i].condition is Some
                <==> p.policy()[i].1 is Some) && (list.conditional@[i].condition is Some
                ==> p.policy()[i].1->0 == *list.conditional@[i].condition->0)
            &&& p.refusal() == conditional_refusal(list.conditional@)
        },
{
}

/// Conditional policies are accepted exactly if there are some, no more than 64, and all but the
/// last have a condition.
pub proof fn conditional_policies_are_bounded<T>(list: Seq<LocalConditionalPolicy<T>>)
    ensures
        conditional_refusal(list) is None <==> 1 <= list.len() <= 64 && forall|i: int|
            0 <= i < list.len() - 1 ==> (#[trigger] list[i]).condition is Some,
        list.len() == 0 ==> conditional_refusal(list) == Some(
            "conditional policies must have at least one entry"@,
        ),
        list.len() > 64 ==> conditional_refusal(list) == Some(
            "conditional policies may have at most 64 entries"@,
        ),
        1 <= list.len() <= 64 && conditional_refusal(list) is Some ==> conditional_refusal(list)
            == Some("conditional policy entries without condition must be last"@),
{
}

/// A transformation is the one that was compiled; of conditional ones each applies under its
/// condition. It is refused if the conditions are, or else for the first that did not compile.
pub proof fn transformations_are_those_compiled(
    p: LocalExplicitOrConditional<Loaded<PolicyBody>>,
    i: int,
)
    ensures
        p matches LocalExplicitOrConditional::Explicit(Ok(x)) ==> p.transformation().len() == 1
            && p.transformation()[0] == (*x, None::<crate::types::policy::Expression>)
            && p.transformation_refusal() is None,
        p matches LocalExplicitOrConditional::Explicit(Err(e)) ==> p.transformation_refusal()
            == Some(e@),
        p matches LocalExplicitOrConditional::Conditional(list) ==> {
            &&& p.transformation().len() == list.conditional@.len()
            &&& 0 <= i < list.conditional@.len() && *list.conditional@[i].policy is Ok
                ==> p.transformation()[i].0 == *(*list.conditional@[i].policy)->Ok_0 && (
            list.conditional@[i].condition is Some <==> p.transformation()[i].1 is Some) && (
            list.conditional@[i].condition is Some ==> p.transformation()[i].1->0
                == *list.conditional@[i].condition->0)
            &&& p.transformation_refusal() is None <==> conditional_refusal(list.conditional@)
                is None && forall|j: int|
                0 <= j < list.conditional@.len() ==> *(#[trigger] list.conditional@[j]).policy is Ok
            &&& conditional_refusal(list.conditional@) is Some ==> p.transformation_refusal()
                == conditional_refusal(list.conditional@)
            &&& conditional_refusal(list.conditional@) is None && 0 <= i < list.conditional@.len()
                && *list.conditional@[i].policy is Err && (forall|j: int|
                0 <= j < i ==> *(#[trigger] list.conditional@[j]).policy is Ok)
                ==> p.transformation_refusal() == Some((*list.conditional@[i].policy)->Err_0@)
        },
{
    if p is Conditional {
        lemma_compiled(p->Conditional_0.conditional@, i);
        if !(forall|j: int|
            0 <= j < p->Conditional_0.conditional@.len() ==> *(
            #[trigger] p->Conditional_0.conditional@[j]).policy is Ok) {
            let j = choose|j: int|
                0 <= j < p->Conditional_0.conditional@.len() && *(
                #[trigger] p->Conditional_0.conditional@[j]).policy is Err;
            lemma_first_uncompiled(p->Conditional_0.conditional@, j);
        }
    }
}

proof fn lemma_compiled(list: Seq<LocalConditionalPolicy<Loaded<PolicyBody>>>, i: int)
    ensures
        (forall|j: int| 0 <= j < list.len() ==> *(#[trigger] list[j]).policy is Ok)
            ==> compile_refusal(list) is None,
        0 <= i < list.len() && *list[i].policy is Err && (forall|j: int|
            0 <= j < i ==> *(#[trigger] list[j]).policy is Ok) ==> compile_refusal(list) == Some(
            (*list[i].policy)->Err_0@,
        ),
    decreases list.len(),
{
    if list.len() > 0 {
        lemma_compiled(list.drop_last(), i);
        assert(list.last() == list[list.len() - 1]);
    }
}

proof fn lemma_first_uncompiled(list: Seq<LocalConditionalPolicy<Loaded<PolicyBody>>>, i: int)
    requires
        0 <= i < list.len(),
        *list[i].policy is Err,
    ensures
        compile_refusal(list) is Some,
    decreases list.len(),
{
    if i < list.len() - 1 {
        lemma_first_uncompiled(list.drop_last(), i);
    }
}

/// Local rate limits that are written plainly all apply to every request; of conditional ones each
/// applies under its condition. Without entries there are none.
pub proof fn rate_limits_apply_as_written(p: LocalRateLimitPolicy, i: int)
    ensures
        p matches LocalRateLimitPolicy::Explicit(list) ==> {
            &&& p.policy().len() == 1
            &&& p.policy()[0] == (list@, None::<crate::types::policy::Expression>)
            &&& p.refusal() is None
            &&& p.none() <==> list@.len() == 0
        },
        p matches LocalRateLimitPolicy::Conditional(list) ==> {
            &&& p.policy().len() == list.conditional@.len()
            &&& 0 <= i < list.conditional@.len() ==> p.policy()[i].0 == seq![
                list.conditional@[i].policy,
            ] && (list.conditional@[i].condition is Some <==> p.policy()[i].1 is Some) && (
            list.conditional@[i].condition is Some ==> p.policy()[i].1->0
                == *list.conditional@[i].condition->0)
            &&& p.refusal() == conditional_refusal(list.conditional@)
            &&& p.none() <==> list.conditional@.len() == 0
        },
{
}

/// A policy that always applies has one entry, without a condition.
pub proof fn unconditional_policies_have_one_entry<V>(v: V)
    ensures
        always(v) == seq![(v, None::<crate::types::policy::Expression>)],
{
}

} // verus!
