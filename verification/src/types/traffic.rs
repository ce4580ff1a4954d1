//! Policies of requests and of the backends that they go to.

use std::sync::Arc;

use vstd::prelude::*;

use crate::ext_proc::{ExtProc, InferenceRouting};
use crate::mcp::ext_mcp::ExtMcp;
use crate::types::frontend::FrontendPolicy;
use crate::types::llm;
use crate::types::policy::{
    BackendAuth, DirectResponse, EntryView, HeaderModifier, HeaderModifierView,
    HostRedirectOverride, JwtAuthentication, McpAuthentication, OidcPolicy, OidcPolicyView,
    PolicyBody, RateLimits, RequestPolicy, RuleSet, TimeoutPolicy,
};

verus! {

/// A policy of the requests of a route or of a gateway.
#[derive(Debug)]
pub enum TrafficPolicy {
    LocalRateLimit(RequestPolicy<RateLimits>),
    ExtAuthz(RequestPolicy<PolicyBody>),
    ExtProc(RequestPolicy<ExtProc>),
    RemoteRateLimit(RequestPolicy<PolicyBody>),
    JwtAuth(RequestPolicy<JwtAuthentication>),
    Oidc(RequestPolicy<OidcPolicy>),
    BasicAuth(RequestPolicy<PolicyBody>),
    APIKey(RequestPolicy<PolicyBody>),
    Transformation(RequestPolicy<PolicyBody>),
    Authorization(Arc<RuleSet>),
    AI(Arc<llm::Policy>),
    Csrf(RequestPolicy<PolicyBody>),
    Timeout(Arc<TimeoutPolicy>),
    Retry(Arc<PolicyBody>),
    RequestHeaderModifier(RequestPolicy<HeaderModifier>),
    ResponseHeaderModifier(Arc<HeaderModifier>),
    RequestRedirect(RequestPolicy<PolicyBody>),
    UrlRewrite(RequestPolicy<PolicyBody>),
    HostRewrite(HostRedirectOverride),
    RequestMirror(Arc<Vec<Arc<PolicyBody>>>),
    DirectResponse(RequestPolicy<DirectResponse>),
    CORS(RequestPolicy<PolicyBody>),
}

/// What a [`TrafficPolicy`] holds.
#[verifier::ext_equal]
pub enum TrafficPolicyView {
    LocalRateLimit(Seq<EntryView<Seq<Arc<PolicyBody>>>>),
    ExtAuthz(Seq<EntryView<PolicyBody>>),
    ExtProc(Seq<EntryView<ExtProc>>),
    RemoteRateLimit(Seq<EntryView<PolicyBody>>),
    JwtAuth(Seq<EntryView<JwtAuthentication>>),
    Oidc(Seq<EntryView<OidcPolicyView>>),
    BasicAuth(Seq<EntryView<PolicyBody>>),
    APIKey(Seq<EntryView<PolicyBody>>),
    Transformation(Seq<EntryView<PolicyBody>>),
    Authorization(Arc<RuleSet>),
    AI(llm::PolicyView),
    Csrf(Seq<EntryView<PolicyBody>>),
    Timeout(Arc<TimeoutPolicy>),
    Retry(Arc<PolicyBody>),
    RequestHeaderModifier(Seq<EntryView<HeaderModifierView>>),
    ResponseHeaderModifier(HeaderModifierView),
    RequestRedirect(Seq<EntryView<PolicyBody>>),
    UrlRewrite(Seq<EntryView<PolicyBody>>),
    HostRewrite(HostRedirectOverride),
    RequestMirror(Seq<Arc<PolicyBody>>),
    DirectResponse(Seq<EntryView<(Seq<char>, u16)>>),
    CORS(Seq<EntryView<PolicyBody>>),
}

impl View for TrafficPolicy {
    type V = TrafficPolicyView;

    open spec fn view(&self) -> TrafficPolicyView {
        match self {
            TrafficPolicy::LocalRateLimit(p) => TrafficPolicyView::LocalRateLimit(p@),
            TrafficPolicy::ExtAuthz(p) => TrafficPolicyView::ExtAuthz(p@),
            TrafficPolicy::ExtProc(p) => TrafficPolicyView::ExtProc(p@),
            TrafficPolicy::RemoteRateLimit(p) => TrafficPolicyView::RemoteRateLimit(p@),
            TrafficPolicy::JwtAuth(p) => TrafficPolicyView::JwtAuth(p@),
            TrafficPolicy::Oidc(p) => TrafficPolicyView::Oidc(p@),
            TrafficPolicy::BasicAuth(p) => TrafficPolicyView::BasicAuth(p@),
            TrafficPolicy::APIKey(p) => TrafficPolicyView::APIKey(p@),
            TrafficPolicy::Transformation(p) => TrafficPolicyView::Transformation(p@),
            TrafficPolicy::Authorization(p) => TrafficPolicyView::Authorization(*p),
            TrafficPolicy::AI(p) => TrafficPolicyView::AI((**p)@),
            TrafficPolicy::Csrf(p) => TrafficPolicyView::Csrf(p@),
            TrafficPolicy::Timeout(p) => TrafficPolicyView::Timeout(*p),
            TrafficPolicy::Retry(p) => TrafficPolicyView::Retry(*p),
            TrafficPolicy::RequestHeaderModifier(p) => TrafficPolicyView::RequestHeaderModifier(p@),
            TrafficPolicy::ResponseHeaderModifier(p) => TrafficPolicyView::ResponseHeaderModifier(
                (**p)@,
            ),
            TrafficPolicy::RequestRedirect(p) => TrafficPolicyView::RequestRedirect(p@),
            TrafficPolicy::UrlRewrite(p) => TrafficPolicyView::UrlRewrite(p@),
            TrafficPolicy::HostRewrite(p) => TrafficPolicyView::HostRewrite(*p),
            TrafficPolicy::RequestMirror(p) => TrafficPolicyView::RequestMirror((**p)@),
            TrafficPolicy::DirectResponse(p) => TrafficPolicyView::DirectResponse(p@),
            TrafficPolicy::CORS(p) => TrafficPolicyView::CORS(p@),
        }
    }
}

/// A policy of the requests to a backend.
#[derive(Debug)]
pub enum BackendTrafficPolicy {
    A2a(Arc<PolicyBody>),
    BackendTLS(Arc<PolicyBody>),
    BackendAuth(Arc<BackendAuth>),
    InferenceRouting(Arc<InferenceRouting>),
    ExtAuthz(Arc<PolicyBody>),
    AI(Arc<llm::Policy>),
    HTTP(Arc<PolicyBody>),
    TCP(Arc<PolicyBody>),
    Tunnel(Arc<PolicyBody>),
    RequestHeaderModifier(Arc<HeaderModifier>),
    ResponseHeaderModifier(Arc<HeaderModifier>),
    RequestRedirect(Arc<PolicyBody>),
    Transformation(Arc<PolicyBody>),
    SessionPersistence(Arc<PolicyBody>),
    Health(Arc<PolicyBody>),
    RequestMirror(Arc<Vec<Arc<PolicyBody>>>),
    McpAuthorization(Arc<RuleSet>),
    McpAuthentication(Arc<McpAuthentication>),
    ExtMcp(Arc<ExtMcp>),
}

/// What a [`BackendTrafficPolicy`] holds.
#[verifier::ext_equal]
pub enum BackendTrafficPolicyView {
    AI(llm::PolicyView),
    RequestHeaderModifier(HeaderModifierView),
    ResponseHeaderModifier(HeaderModifierView),
    Other(BackendTrafficPolicy),
}

impl View for BackendTrafficPolicy {
    type V = BackendTrafficPolicyView;

    open spec fn view(&self) -> BackendTrafficPolicyView {
        match self {
            BackendTrafficPolicy::AI(p) => BackendTrafficPolicyView::AI((**p)@),
            BackendTrafficPolicy::RequestHeaderModifier(
                p,
            ) => BackendTrafficPolicyView::RequestHeaderModifier((**p)@),
            BackendTrafficPolicy::ResponseHeaderModifier(
                p,
            ) => BackendTrafficPolicyView::ResponseHeaderModifier((**p)@),
            p => BackendTrafficPolicyView::Other(*p),
        }
    }
}

impl BackendTrafficPolicy {
    /// A policy that shares what this one holds.
    pub fn share(&self) -> (r: Self)
        ensures
            r == *self,
    {
        match self {
            BackendTrafficPolicy::A2a(p) => BackendTrafficPolicy::A2a(p.clone()),
            BackendTrafficPolicy::BackendTLS(p) => BackendTrafficPolicy::BackendTLS(p.clone()),
            BackendTrafficPolicy::BackendAuth(p) => BackendTrafficPolicy::BackendAuth(p.clone()),
            BackendTrafficPolicy::InferenceRouting(p) => BackendTrafficPolicy::InferenceRouting(
                p.clone(),
            ),
            BackendTrafficPolicy::ExtAuthz(p) => BackendTrafficPolicy::ExtAuthz(p.clone()),
            BackendTrafficPolicy::AI(p) => BackendTrafficPolicy::AI(p.clone()),
            BackendTrafficPolicy::HTTP(p) => BackendTrafficPolicy::HTTP(p.clone()),
            BackendTrafficPolicy::TCP(p) => BackendTrafficPolicy::TCP(p.clone()),
            BackendTrafficPolicy::Tunnel(p) => BackendTrafficPolicy::Tunnel(p.clone()),
            BackendTrafficPolicy::RequestHeaderModifier(
                p,
            ) => BackendTrafficPolicy::RequestHeaderModifier(p.clone()),
            BackendTrafficPolicy::ResponseHeaderModifier(
                p,
            ) => BackendTrafficPolicy::ResponseHeaderModifier(p.clone()),
            BackendTrafficPolicy::RequestRedirect(p) => BackendTrafficPolicy::RequestRedirect(
                p.clone(),
            ),
            BackendTrafficPolicy::Transformation(p) => BackendTrafficPolicy::Transformation(
                p.clone(),
            ),
            BackendTrafficPolicy::SessionPersistence(
                p,
            ) => BackendTrafficPolicy::SessionPersistence(p.clone()),
            BackendTrafficPolicy::Health(p) => BackendTrafficPolicy::Health(p.clone()),
            BackendTrafficPolicy::RequestMirror(p) => BackendTrafficPolicy::RequestMirror(
                p.clone(),
            ),
            BackendTrafficPolicy::McpAuthorization(p) => BackendTrafficPolicy::McpAuthorization(
                p.clone(),
            ),
            BackendTrafficPolicy::McpAuthentication(p) => BackendTrafficPolicy::McpAuthentication(
                p.clone(),
            ),
            BackendTrafficPolicy::ExtMcp(p) => BackendTrafficPolicy::ExtMcp(p.clone()),
        }
    }
}

/// Copies a list of backend policies, sharing what they hold.
pub fn share_policies(list: &Vec<BackendTrafficPolicy>) -> (r: Vec<BackendTrafficPolicy>)
    ensures
        r@ == list@,
{
    let mut out: Vec<BackendTrafficPolicy> = Vec::new();
    let mut i: usize = 0;
    while i < list.len()
        invariant
            i <= list@.len(),
            out@ == list@.take(i as int),
        decreases list@.len() - i,
    {
        out.push(list[i].share());
        i = i + 1;
        assert(out@ =~= list@.take(i as int));
    }
    assert(out@ =~= list@);
    out
}

/// When a traffic policy runs: on the matched route, or before a route is chosen.
#[derive(Debug, Clone, Copy, PartialEq, Eq, Structural)]
pub enum PolicyPhase {
    Route,
    Gateway,
}

/// A policy of any family. A traffic policy runs in one phase.
#[derive(Debug)]
pub enum PolicyType {
    Frontend(FrontendPolicy),
    Traffic(TrafficPolicy, PolicyPhase),
    Backend(BackendTrafficPolicy),
}

/// What a [`PolicyType`] holds.
#[verifier::ext_equal]
pub enum PolicyTypeView {
    Frontend(FrontendPolicy),
    Traffic(TrafficPolicyView, PolicyPhase),
    Backend(BackendTrafficPolicyView),
}

impl View for PolicyType {
    type V = PolicyTypeView;

    open spec fn view(&self) -> PolicyTypeView {
        match self {
            PolicyType::Frontend(p) => PolicyTypeView::Frontend(*p),
            PolicyType::Traffic(p, phase) => PolicyTypeView::Traffic(p@, *phase),
            PolicyType::Backend(p) => PolicyTypeView::Backend(p@),
        }
    }
}

impl PolicyType {
    /// The policy, if it is a traffic policy of the given phase.
    pub open spec fn traffic(self, phase: PolicyPhase) -> Option<TrafficPolicy> {
        match self {
            PolicyType::Traffic(p, own) => if own == phase {
                Some(p)
            } else {
                None
            },
            _ => None,
        }
    }

    /// The policy, if it is a backend policy.
    pub open spec fn backend(self) -> Option<BackendTrafficPolicy> {
        match self {
            PolicyType::Backend(p) => Some(p),
            _ => None,
        }
    }

    /// The policy, if it is a frontend policy.
    pub open spec fn frontend(self) -> Option<FrontendPolicy> {
        match self {
            PolicyType::Frontend(p) => Some(p),
            _ => None,
        }
    }

    /// The policy, if it is a traffic policy that runs on routes.
    pub fn as_traffic_route_phase(&self) -> (r: Option<&TrafficPolicy>)
        ensures
            match r {
                Some(p) => self.traffic(PolicyPhase::Route) == Some(*p),
                None => self.traffic(PolicyPhase::Route) is None,
            },
    {
        match self {
            PolicyType::Traffic(p, PolicyPhase::Route) => Some(p),
            _ => None,
        }
    }

    /// The policy, if it is a traffic policy that runs before a route is chosen.
    pub fn as_traffic_gateway_phase(&self) -> (r: Option<&TrafficPolicy>)
        ensures
            match r {
                Some(p) => self.traffic(PolicyPhase::Gateway) == Some(*p),
                None => self.traffic(PolicyPhase::Gateway) is None,
            },
    {
        match self {
            PolicyType::Traffic(p, PolicyPhase::Gateway) => Some(p),
            _ => None,
        }
    }

    /// The policy, if it is a backend policy.
    pub fn as_backend(&self) -> (r: Option<&BackendTrafficPolicy>)
        ensures
            match r {
                Some(p) => self.backend() == Some(*p),
                None => self.backend() is None,
            },
    {
        match self {
            PolicyType::Backend(p) => Some(p),
            _ => None,
        }
    }

    /// The policy, if it is a frontend policy.
    pub fn as_frontend(&self) -> (r: Option<&FrontendPolicy>)
        ensures
            match r {
                Some(p) => self.frontend() == Some(*p),
                None => self.frontend() is None,
            },
    {
        match self {
            PolicyType::Frontend(p) => Some(p),
            _ => None,
        }
    }
}

} // verus!
