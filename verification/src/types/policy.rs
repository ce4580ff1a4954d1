//! The building blocks of policies: expressions, settings, and policies that depend on a condition.

use std::sync::Arc;

use vstd::prelude::*;

use crate::json::Json;
use crate::text::Text;

verus! {

/// A CEL expression.
#[derive(Debug, PartialEq, Eq)]
pub struct Expression {
    pub source: String,
}

/// The settings of a policy that the gateway carries without reading, and the expressions that
/// occur in them.
#[derive(Debug)]
pub struct PolicyBody {
    pub document: Json,
    pub expressions: Vec<Arc<Expression>>,
}

/// Something that evaluates expressions.
pub trait HasExpressions {
    /// The expressions, in order.
    spec fn expression_list(&self) -> Seq<Arc<Expression>>;

    /// The expressions, in order.
    fn expressions(&self) -> (r: Vec<Arc<Expression>>)
        ensures
            r@ == self.expression_list(),
    ;
}

/// Copies a list of shared values.
pub fn share_all<T>(list: &Vec<Arc<T>>) -> (r: Vec<Arc<T>>)
    ensures
        r@ == list@,
{
    let mut out: Vec<Arc<T>> = Vec::new();
    let mut i: usize = 0;
    while i < list.len()
        invariant
            i <= list@.len(),
            out@ == list@.take(i as int),
        decreases list@.len() - i,
    {
        out.push(list[i].clone());
        i = i + 1;
        assert(out@ =~= list@.take(i as int));
    }
    assert(out@ =~= list@);
    out
}

/// Copies an optional shared value.
pub fn share<T>(value: &Option<Arc<T>>) -> (r: Option<Arc<T>>)
    ensures
        r == *value,
{
    match value {
        Some(v) => Some(v.clone()),
        None => None,
    }
}

/// The first of two optional values that is present.
pub open spec fn first_of<T>(a: Option<T>, b: Option<T>) -> Option<T> {
    match a {
        Some(x) => Some(x),
        None => b,
    }
}

/// The first of two optional values that is present.
pub fn prefer<T>(a: Option<T>, b: Option<T>) -> (r: Option<T>)
    ensures
        r == first_of(a, b),
{
    match a {
        Some(x) => Some(x),
        None => b,
    }
}

/// Sets an empty field; a field that is set keeps its value.
pub fn set_if_none<T>(field: &mut Option<Arc<T>>, value: &Arc<T>)
    ensures
        *final(field) == first_of(*old(field), Some(*value)),
{
    match field {
        Some(_) => {},
        None => {
            *field = Some(value.clone());
        },
    }
}

impl View for PolicyBody {
    type V = PolicyBody;

    open spec fn view(&self) -> PolicyBody {
        *self
    }
}

impl HasExpressions for PolicyBody {
    open spec fn expression_list(&self) -> Seq<Arc<Expression>> {
        self.expressions@
    }

    fn expressions(&self) -> (r: Vec<Arc<Expression>>) {
        share_all(&self.expressions)
    }
}

/// Collects the expressions that a request will evaluate, and those that only its log will.
#[derive(Debug)]
pub struct ContextBuilder {
    pub expressions: Vec<Arc<Expression>>,
    pub log_expressions: Vec<Arc<Expression>>,
}

impl ContextBuilder {
    /// A builder that holds nothing.
    pub fn new() -> (r: Self)
        ensures
            r.expressions@.len() == 0,
            r.log_expressions@.len() == 0,
    {
        ContextBuilder { expressions: Vec::new(), log_expressions: Vec::new() }
    }

    /// Adds an expression that the request evaluates.
    pub fn register_expression(&mut self, e: &Arc<Expression>)
        ensures
            final(self).expressions@ == old(self).expressions@.push(*e),
            final(self).log_expressions@ == old(self).log_expressions@,
    {
        self.expressions.push(e.clone());
    }

    /// Adds an expression that the log evaluates.
    pub fn register_log_expression(&mut self, e: &Arc<Expression>)
        ensures
            final(self).expressions@ == old(self).expressions@,
            final(self).log_expressions@ == old(self).log_expressions@.push(*e),
    {
        self.log_expressions.push(e.clone());
    }

    /// Adds expressions that the request evaluates.
    pub fn register_all(&mut self, list: &Vec<Arc<Expression>>)
        ensures
            final(self).expressions@ == old(self).expressions@ + list@,
            final(self).log_expressions@ == old(self).log_expressions@,
    {
        let ghost before = self.expressions@;
        let ghost logs = self.log_expressions@;
        let mut i: usize = 0;
        while i < list.len()
            invariant
                i <= list@.len(),
                self.expressions@ == before + list@.take(i as int),
                self.log_expressions@ == logs,
            decreases list@.len() - i,
        {
            self.register_expression(&list[i]);
            i = i + 1;
            assert(self.expressions@ =~= before + list@.take(i as int));
        }
        assert(list@.take(i as int) =~= list@);
    }
}

/// A policy with the condition under which it applies. Without a condition it always applies.
#[derive(Debug)]
pub struct ConditionalEntry<T> {
    pub policy: Arc<T>,
    pub condition: Option<Arc<Expression>>,
}

/// A policy of the request path: absent, a single one, or the first of several whose condition
/// holds.
#[derive(Debug)]
pub enum RequestPolicy<T> {
    Unset,
    Single(Arc<T>),
    Conditional(Arc<Vec<ConditionalEntry<T>>>),
}

impl<T> RequestPolicy<T> {
    /// The policies with their conditions, in the order in which they are tried.
    pub open spec fn entries(&self) -> Seq<ConditionalEntry<T>> {
        match self {
            RequestPolicy::Unset => Seq::empty(),
            RequestPolicy::Single(p) => seq![ConditionalEntry { policy: *p, condition: None }],
            RequestPolicy::Conditional(list) => list@,
        }
    }

    /// A policy that always applies.
    pub fn single(policy: T) -> (r: Self)
        ensures
            r == RequestPolicy::Single(Arc::new(policy)),
    {
        RequestPolicy::Single(Arc::new(policy))
    }

    /// Policies of which the first applies whose condition holds.
    pub fn from_policies(policies: Vec<ConditionalEntry<T>>) -> (r: Self)
        ensures
            r == RequestPolicy::Conditional(Arc::new(policies)),
    {
        RequestPolicy::Conditional(Arc::new(policies))
    }

    /// Whether a policy was set.
    pub fn is_set(&self) -> (r: bool)
        ensures
            r == !(self is Unset),
    {
        match self {
            RequestPolicy::Unset => false,
            _ => true,
        }
    }

    /// A policy that shares what this one holds.
    pub fn share(&self) -> (r: Self)
        ensures
            r == *self,
    {
        match self {
            RequestPolicy::Unset => RequestPolicy::Unset,
            RequestPolicy::Single(p) => RequestPolicy::Single(p.clone()),
            RequestPolicy::Conditional(list) => RequestPolicy::Conditional(list.clone()),
        }
    }

    /// Takes the given policy if none was set; a policy that was set stays.
    pub fn set_if_unset(&mut self, policy: &RequestPolicy<T>)
        ensures
            *final(self) == (if *old(self) is Unset {
                *policy
            } else {
                *old(self)
            }),
    {
        if !self.is_set() {
            *self = policy.share();
        }
    }
}

/// A policy of which the condition is optional, as values.
pub type EntryView<V> = (V, Option<Expression>);

/// What an entry holds.
pub open spec fn entry_view<T: View>(e: ConditionalEntry<T>) -> EntryView<T::V> {
    (
        (*e.policy)@,
        match e.condition {
            Some(c) => Some(*c),
            None => None,
        },
    )
}

impl<T: View> View for RequestPolicy<T> {
    type V = Seq<EntryView<T::V>>;

    open spec fn view(&self) -> Seq<EntryView<T::V>> {
        self.entries().map_values(|e: ConditionalEntry<T>| entry_view(e))
    }
}

/// What a policy that always applies holds.
pub open spec fn always<V>(policy: V) -> Seq<EntryView<V>> {
    seq![(policy, None)]
}

/// The expressions of the entries before `n`: of each its condition, then those of its policy.
pub open spec fn entry_expressions<T: HasExpressions>(
    entries: Seq<ConditionalEntry<T>>,
    n: int,
) -> Seq<Arc<Expression>>
    decreases n,
{
    if n <= 0 {
        Seq::empty()
    } else {
        let e = entries[n - 1];
        entry_expressions(entries, n - 1) + (match e.condition {
            Some(c) => seq![c],
            None => Seq::empty(),
        }) + (*e.policy).expression_list()
    }
}

/// A policy, or a family of policies, that can register its expressions.
pub trait PolicyExpressions {
    /// What is registered, in order.
    spec fn registered(&self) -> Seq<Arc<Expression>>;

    /// Registers the expressions with the builder.
    fn register_expressions(&self, ctx: &mut ContextBuilder)
        ensures
            final(ctx).expressions@ == old(ctx).expressions@ + self.registered(),
            final(ctx).log_expressions@ == old(ctx).log_expressions@,
    ;
}

impl<T: HasExpressions> PolicyExpressions for RequestPolicy<T> {
    open spec fn registered(&self) -> Seq<Arc<Expression>> {
        entry_expressions(self.entries(), self.entries().len() as int)
    }

    fn register_expressions(&self, ctx: &mut ContextBuilder) {
        let ghost before = ctx.expressions@;
        let ghost logs = ctx.log_expressions@;
        match self {
            RequestPolicy::Unset => {
                assert(before + self.registered() =~= before);
            },
            RequestPolicy::Single(p) => {
                let list = p.expressions();
                ctx.register_all(&list);
                proof {
                    reveal_with_fuel(entry_expressions, 2);
                    assert(self.registered() =~= (**p).expression_list());
                }
            },
            RequestPolicy::Conditional(entries) => {
                let mut i: usize = 0;
                while i < entries.len()
                    invariant
                        i <= entries@.len(),
                        ctx.expressions@ == before + entry_expressions(entries@, i as int),
                        ctx.log_expressions@ == logs,
                    decreases entries@.len() - i,
                {
                    let ghost start = ctx.expressions@;
                    match &entries[i].condition {
                        Some(c) => {
                            ctx.register_expression(c);
                        },
                        None => {},
                    }
                    let list = entries[i].policy.expressions();
                    ctx.register_all(&list);
                    i = i + 1;
                    assert(ctx.expressions@ =~= before + entry_expressions(entries@, i as int));
                }
            },
        }
    }
}

/// A policy of a backend: absent or a single one.
#[derive(Debug)]
pub struct BackendPolicy<T> {
    pub policy: Option<Arc<T>>,
}

/// A policy of the response path: absent or a single one.
pub type ResponsePolicy<T> = BackendPolicy<T>;

impl<T> BackendPolicy<T> {
    /// No policy.
    pub fn unset() -> (r: Self)
        ensures
            r.policy is None,
    {
        BackendPolicy { policy: None }
    }

    /// A policy that shares what this one holds.
    pub fn share(&self) -> (r: Self)
        ensures
            r == *self,
    {
        BackendPolicy { policy: share(&self.policy) }
    }

    /// Takes the given policy if none was set; a policy that was set stays.
    pub fn set_if_unset(&mut self, policy: &Arc<T>)
        ensures
            final(self).policy == first_of(old(self).policy, Some(*policy)),
    {
        set_if_none(&mut self.policy, policy);
    }

    /// This policy if it is set, else the other.
    pub fn or(self, other: Self) -> (r: Self)
        ensures
            r.policy == first_of(self.policy, other.policy),
    {
        BackendPolicy { policy: prefer(self.policy, other.policy) }
    }
}

impl<T: HasExpressions> PolicyExpressions for BackendPolicy<T> {
    open spec fn registered(&self) -> Seq<Arc<Expression>> {
        match self.policy {
            Some(p) => (*p).expression_list(),
            None => Seq::empty(),
        }
    }

    fn register_expressions(&self, ctx: &mut ContextBuilder) {
        match &self.policy {
            Some(p) => {
                let list = p.expressions();
                ctx.register_all(&list);
            },
            None => {
                assert(ctx.expressions@ + self.registered() =~= ctx.expressions@);
            },
        }
    }
}

/// The rules of an authorization policy: expressions that allow, that deny, and that must hold.
#[derive(Debug)]
pub struct RuleSet {
    pub allow: Vec<Arc<Expression>>,
    pub deny: Vec<Arc<Expression>>,
    pub require: Vec<Arc<Expression>>,
}

/// The rule sets of all the authorization policies that apply.
#[derive(Debug)]
pub struct AuthorizationSet {
    pub rule_sets: Vec<Arc<RuleSet>>,
}

/// HTTP authorization.
pub type HTTPAuthorizationSet = AuthorizationSet;

/// Authorization of MCP resources.
pub type McpAuthorizationSet = AuthorizationSet;

/// Authorization of network connections.
pub type NetworkAuthorizationSet = AuthorizationSet;

impl AuthorizationSet {
    /// The set of the given rule sets.
    pub fn new(rule_sets: Vec<Arc<RuleSet>>) -> (r: Self)
        ensures
            r.rule_sets == rule_sets,
    {
        AuthorizationSet { rule_sets }
    }

    /// Adds a rule set.
    pub fn merge_rule_set(&mut self, rule_set: Arc<RuleSet>)
        ensures
            final(self).rule_sets@ == old(self).rule_sets@.push(rule_set),
    {
        self.rule_sets.push(rule_set);
    }

    /// A set that shares the rule sets of this one.
    pub fn share(&self) -> (r: Self)
        ensures
            r.rule_sets@ == self.rule_sets@,
    {
        AuthorizationSet { rule_sets: share_all(&self.rule_sets) }
    }

    /// Decides on given outcomes of the expressions. `holds[i]` tells of rule set `i` whether one
    /// of its allow expressions, one of its deny expressions, and all of its require expressions
    /// hold. A deny that holds refuses. A require that does not hold refuses. Otherwise an allow
    /// that holds admits, and if no rule set allows anything in particular, everything is admitted.
    pub fn decide(&self, holds: &Vec<RuleOutcome>) -> (r: bool)
        requires
            holds@.len() == self.rule_sets@.len(),
        ensures
            r == admits(self.rule_sets@, holds@),
    {
        let mut i: usize = 0;
        let mut has_allow = false;
        let mut allowed = false;
        while i < self.rule_sets.len()
            invariant
                i <= self.rule_sets@.len(),
                holds@.len() == self.rule_sets@.len(),
                forall|j: int| 0 <= j < i ==> !(#[trigger] holds@[j]).denied && holds@[j].required,
                has_allow == (exists|j: int|
                    0 <= j < i && (#[trigger] self.rule_sets@[j]).allow@.len() > 0),
                allowed == (exists|j: int|
                    0 <= j < i && (#[trigger] self.rule_sets@[j]).allow@.len() > 0
                        && holds@[j].allowed),
            decreases self.rule_sets@.len() - i,
        {
            assert(self.rule_sets@[i as int] == self.rule_sets@[i as int]);
            if holds[i].denied || !holds[i].required {
                return false;
            }
            if self.rule_sets[i].allow.len() > 0 {
                has_allow = true;
                if holds[i].allowed {
                    allowed = true;
                }
            }
            i = i + 1;
        }
        !has_allow || allowed
    }
}

/// What the expressions of a rule set came to.
#[derive(Debug, Clone, Copy, PartialEq, Eq, Structural)]
pub struct RuleOutcome {
    pub allowed: bool,
    pub denied: bool,
    pub required: bool,
}

/// Whether rule sets whose expressions came to these outcomes admit.
pub open spec fn admits(rule_sets: Seq<Arc<RuleSet>>, holds: Seq<RuleOutcome>) -> bool {
    &&& forall|j: int|
        0 <= j < rule_sets.len() ==> !(#[trigger] holds[j]).denied && holds[j].required
    &&& (forall|j: int| 0 <= j < rule_sets.len() ==> (#[trigger] rule_sets[j]).allow@.len() == 0)
        || (exists|j: int|
        0 <= j < rule_sets.len() && (#[trigger] rule_sets[j]).allow@.len() > 0 && holds[j].allowed)
}

/// The expressions of a rule set.
pub open spec fn rule_expressions(r: RuleSet) -> Seq<Arc<Expression>> {
    r.allow@ + r.deny@ + r.require@
}

/// The expressions of the rule sets before `n`.
pub open spec fn rule_set_expressions(
    rule_sets: Seq<Arc<RuleSet>>,
    n: int,
) -> Seq<Arc<Expression>>
    decreases n,
{
    if n <= 0 {
        Seq::empty()
    } else {
        rule_set_expressions(rule_sets, n - 1) + rule_expressions(*rule_sets[n - 1])
    }
}

impl HasExpressions for AuthorizationSet {
    open spec fn expression_list(&self) -> Seq<Arc<Expression>> {
        rule_set_expressions(self.rule_sets@, self.rule_sets@.len() as int)
    }

    fn expressions(&self) -> (r: Vec<Arc<Expression>>) {
        let mut out: Vec<Arc<Expression>> = Vec::new();
        let mut i: usize = 0;
        while i < self.rule_sets.len()
            invariant
                i <= self.rule_sets@.len(),
                out@ == rule_set_expressions(self.rule_sets@, i as int),
            decreases self.rule_sets@.len() - i,
        {
            let mut allow = share_all(&self.rule_sets[i].allow);
            let mut deny = share_all(&self.rule_sets[i].deny);
            let mut require = share_all(&self.rule_sets[i].require);
            out.append(&mut allow);
            out.append(&mut deny);
            out.append(&mut require);
            i = i + 1;
            assert(out@ =~= rule_set_expressions(self.rule_sets@, i as int));
        }
        out
    }
}

/// Headers to add, to set and to remove.
#[derive(Debug, PartialEq, Eq)]
pub struct HeaderModifier {
    pub add: Vec<(String, String)>,
    pub set: Vec<(String, String)>,
    pub remove: Vec<String>,
}

/// What a [`HeaderModifier`] holds.
#[verifier::ext_equal]
pub struct HeaderModifierView {
    pub add: Seq<(Text, Text)>,
    pub set: Seq<(Text, Text)>,
    pub remove: Seq<Text>,
}

/// The texts of pairs of strings.
pub open spec fn pair_texts(pairs: Seq<(String, String)>) -> Seq<(Text, Text)> {
    pairs.map_values(|p: (String, String)| (p.0@, p.1@))
}

impl View for HeaderModifier {
    type V = HeaderModifierView;

    open spec fn view(&self) -> HeaderModifierView {
        HeaderModifierView {
            add: pair_texts(self.add@),
            set: pair_texts(self.set@),
            remove: crate::text::texts(self.remove@),
        }
    }
}

impl HasExpressions for HeaderModifier {
    open spec fn expression_list(&self) -> Seq<Arc<Expression>> {
        Seq::empty()
    }

    fn expressions(&self) -> (r: Vec<Arc<Expression>>) {
        Vec::new()
    }
}

/// A response that is given without calling a backend.
#[derive(Debug, PartialEq, Eq)]
pub struct DirectResponse {
    pub body: String,
    pub status: u16,
}

impl View for DirectResponse {
    type V = (Text, u16);

    open spec fn view(&self) -> (Text, u16) {
        (self.body@, self.status)
    }
}

impl HasExpressions for DirectResponse {
    open spec fn expression_list(&self) -> Seq<Arc<Expression>> {
        Seq::empty()
    }

    fn expressions(&self) -> (r: Vec<Arc<Expression>>) {
        Vec::new()
    }
}

/// A length of time, in nanoseconds.
pub type Nanos = u128;

/// How long a request may take.
#[derive(Debug, PartialEq, Eq)]
pub struct TimeoutPolicy {
    pub request_timeout: Option<Nanos>,
    pub backend_request_timeout: Option<Nanos>,
}

/// Limits on the rate of requests.
#[derive(Debug)]
pub struct RateLimits {
    pub limits: Vec<Arc<PolicyBody>>,
}

/// The expressions of the bodies before `n`.
pub open spec fn body_expressions(bodies: Seq<Arc<PolicyBody>>, n: int) -> Seq<Arc<Expression>>
    decreases n,
{
    if n <= 0 {
        Seq::empty()
    } else {
        body_expressions(bodies, n - 1) + bodies[n - 1].expressions@
    }
}

impl View for RateLimits {
    type V = Seq<Arc<PolicyBody>>;

    open spec fn view(&self) -> Seq<Arc<PolicyBody>> {
        self.limits@
    }
}

impl HasExpressions for RateLimits {
    open spec fn expression_list(&self) -> Seq<Arc<Expression>> {
        body_expressions(self.limits@, self.limits@.len() as int)
    }

    fn expressions(&self) -> (r: Vec<Arc<Expression>>) {
        let mut out: Vec<Arc<Expression>> = Vec::new();
        let mut i: usize = 0;
        while i < self.limits.len()
            invariant
                i <= self.limits@.len(),
                out@ == body_expressions(self.limits@, i as int),
            decreases self.limits@.len() - i,
        {
            let mut part = share_all(&self.limits[i].expressions);
            out.append(&mut part);
            i = i + 1;
            assert(out@ =~= body_expressions(self.limits@, i as int));
        }
        out
    }
}

/// Validation of JSON web tokens, and the MCP authentication that it is part of, if any.
#[derive(Debug)]
pub struct JwtAuthentication {
    pub jwt: Arc<PolicyBody>,
    pub mcp: Option<Arc<McpAuthentication>>,
}

impl View for JwtAuthentication {
    type V = JwtAuthentication;

    open spec fn view(&self) -> JwtAuthentication {
        *self
    }
}

impl HasExpressions for JwtAuthentication {
    open spec fn expression_list(&self) -> Seq<Arc<Expression>> {
        self.jwt.expressions@
    }

    fn expressions(&self) -> (r: Vec<Arc<Expression>>) {
        share_all(&self.jwt.expressions)
    }
}

/// Authentication of MCP clients.
#[derive(Debug)]
pub struct McpAuthentication {
    pub jwt_validator: Arc<PolicyBody>,
    pub settings: Arc<PolicyBody>,
}

/// Names the policy for which an OpenID Connect flow runs.
#[derive(Debug, PartialEq, Eq)]
pub enum PolicyId {
    Route(String),
    Policy(String),
}

/// What a [`PolicyId`] holds.
pub enum PolicyIdView {
    Route(Text),
    Policy(Text),
}

impl View for PolicyId {
    type V = PolicyIdView;

    open spec fn view(&self) -> PolicyIdView {
        match self {
            PolicyId::Route(k) => PolicyIdView::Route(k@),
            PolicyId::Policy(k) => PolicyIdView::Policy(k@),
        }
    }
}

/// Seals the cookies of sessions.
#[derive(Debug)]
pub struct Encoder {
    pub secret: String,
}

/// The OpenID Connect flow of a policy.
#[derive(Debug)]
pub struct OidcPolicy {
    pub policy_id: PolicyId,
    pub provider: Arc<PolicyBody>,
    pub cookie_encoder: Arc<Encoder>,
}

/// What an [`OidcPolicy`] holds.
pub struct OidcPolicyView {
    pub policy_id: PolicyIdView,
    pub provider: Arc<PolicyBody>,
    pub cookie_encoder: Arc<Encoder>,
}

impl View for OidcPolicy {
    type V = OidcPolicyView;

    open spec fn view(&self) -> OidcPolicyView {
        OidcPolicyView {
            policy_id: self.policy_id@,
            provider: self.provider,
            cookie_encoder: self.cookie_encoder,
        }
    }
}

impl HasExpressions for OidcPolicy {
    open spec fn expression_list(&self) -> Seq<Arc<Expression>> {
        self.provider.expressions@
    }

    fn expressions(&self) -> (r: Vec<Arc<Expression>>) {
        share_all(&self.provider.expressions)
    }
}

/// How the gateway authenticates to a backend.
#[derive(Debug)]
pub enum BackendAuth {
    /// With a key, at the given place of the request or at the usual one.
    Key { value: String, location: Option<Arc<PolicyBody>> },
    /// In another way.
    Other(Arc<PolicyBody>),
}

/// Where a rewritten host comes from.
#[derive(Debug, Clone, Copy, PartialEq, Eq, Structural)]
pub enum HostRedirectOverride {
    Auto,
    Unchanged,
}

} // verus!
