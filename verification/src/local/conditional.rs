//! Policies that apply under conditions, as a configuration writes them.

use std::sync::Arc;

use vstd::prelude::*;

use crate::local::error::{first_refusal, lemma_first_refusal, ConfigError, Loaded};
use crate::text::Text;
use crate::types::policy::{
    always, entry_view, first_of, ConditionalEntry, EntryView, PolicyBody, RateLimits,
    RequestPolicy,
};

verus! {

/// A policy with the condition under which it applies. Without one it is the fallback.
pub type LocalConditionalPolicy<T> = ConditionalEntry<T>;

/// Policies of which the first applies whose condition holds. One without a condition must be the
/// last.
#[derive(Debug)]
pub struct LocalConditionalPolicies<T> {
    pub conditional: Vec<LocalConditionalPolicy<T>>,
}

/// A policy, or policies that apply under conditions.
#[derive(Debug)]
pub enum LocalExplicitOrConditional<T> {
    Conditional(LocalConditionalPolicies<T>),
    Explicit(T),
}

/// Why conditional policies are refused, if they are: there are none or too many, or one without a
/// condition stands before the last.
pub open spec fn conditional_refusal<T>(policies: Seq<LocalConditionalPolicy<T>>) -> Option<Text> {
    if policies.len() == 0 {
        Some("conditional policies must have at least one entry"@)
    } else if policies.len() > 64 {
        Some("conditional policies may have at most 64 entries"@)
    } else if exists|i: int|
        0 <= i < policies.len() - 1 && (#[trigger] policies[i]).condition is None {
        Some("conditional policy entries without condition must be last"@)
    } else {
        None
    }
}

/// Refuses conditional policies of which some could never apply, or that are too many.
pub fn validate_local_conditional_policies<T>(policies: &LocalConditionalPolicies<T>) -> (r: Result<
    (),
    ConfigError,
>)
    ensures
        match r {
            Ok(_) => conditional_refusal(policies.conditional@) is None,
            Err(e) => conditional_refusal(policies.conditional@) == Some(e@),
        },
{
    let list = &policies.conditional;
    if list.len() == 0 {
        return Err(ConfigError::new("conditional policies must have at least one entry"));
    }
    if list.len() > 64 {
        return Err(ConfigError::new("conditional policies may have at most 64 entries"));
    }
    let mut i: usize = 0;
    while i < list.len() - 1
        invariant
            0 < list@.len() <= 64,
            *list == policies.conditional,
            i <= list@.len() - 1,
            forall|j: int| 0 <= j < i ==> (#[trigger] list@[j]).condition is Some,
        decreases list@.len() - i,
    {
        if list[i].condition.is_none() {
            assert(list@[i as int].condition is None);
            return Err(
                ConfigError::new("conditional policy entries without condition must be last"),
            );
        }
        i = i + 1;
    }
    Ok(())
}

/// What the entries hold.
pub open spec fn entry_views<T: View>(entries: Seq<LocalConditionalPolicy<T>>) -> Seq<
    EntryView<T::V>,
> {
    entries.map_values(|e: ConditionalEntry<T>| entry_view(e))
}

/// A policy that always applies.
pub fn unconditional<T: View>(policy: T) -> (r: RequestPolicy<T>)
    ensures
        r@ == always(policy@),
{
    let r = RequestPolicy::single(policy);
    assert(r@ =~= always(policy@));
    r
}

impl<T: View> LocalExplicitOrConditional<T> {
    /// Why the policies are refused, if they are.
    pub open spec fn refusal(self) -> Option<Text> {
        match self {
            LocalExplicitOrConditional::Explicit(_) => None,
            LocalExplicitOrConditional::Conditional(p) => conditional_refusal(p.conditional@),
        }
    }

    /// The policies with their conditions.
    pub open spec fn policy(self) -> Seq<EntryView<T::V>> {
        match self {
            LocalExplicitOrConditional::Explicit(p) => always(p@),
            LocalExplicitOrConditional::Conditional(p) => entry_views(p.conditional@),
        }
    }

    /// The policy that requests meet.
    pub fn into_policy(self) -> (r: Result<RequestPolicy<T>, ConfigError>)
        ensures
            match r {
                Ok(p) => self.refusal() is None && p@ == self.policy(),
                Err(e) => self.refusal() == Some(e@),
            },
    {
        match self {
            LocalExplicitOrConditional::Explicit(policy) => Ok(unconditional(policy)),
            LocalExplicitOrConditional::Conditional(policies) => {
                validate_local_conditional_policies(&policies)?;
                let ghost entries = policies.conditional@;
                let r = RequestPolicy::from_policies(policies.conditional);
                assert(r@ =~= entry_views(entries));
                Ok(r)
            },
        }
    }
}

/// A transformation that was compiled, or why it could not be.
pub type CompiledTransformation = Loaded<PolicyBody>;

/// Transformations, with what compiling each of them came to.
pub type LocalTransformationPolicy = LocalExplicitOrConditional<CompiledTransformation>;

/// Why a transformation could not be compiled, if it could not.
pub open spec fn entry_refusal() -> spec_fn(
    int,
    LocalConditionalPolicy<CompiledTransformation>,
) -> Option<Text> {
    |i: int, e: LocalConditionalPolicy<CompiledTransformation>|
        match *e.policy {
            Err(m) => Some(m@),
            Ok(_) => None,
        }
}

/// Why one of the transformations could not be compiled, if one could not: the first counts.
pub open spec fn compile_refusal(
    entries: Seq<LocalConditionalPolicy<CompiledTransformation>>,
) -> Option<Text> {
    first_refusal(entries, entry_refusal())
}

/// The compiled transformations with their conditions.
pub open spec fn compiled_entries(
    entries: Seq<LocalConditionalPolicy<CompiledTransformation>>,
) -> Seq<EntryView<PolicyBody>> {
    entries.map_values(
        |e: LocalConditionalPolicy<CompiledTransformation>|
            (
                *(*e.policy)->Ok_0,
                match e.condition {
                    Some(c) => Some(*c),
                    None => None,
                },
            ),
    )
}

impl LocalExplicitOrConditional<CompiledTransformation> {
    /// Why the transformations are refused, if they are.
    pub open spec fn transformation_refusal(self) -> Option<Text> {
        match self {
            LocalExplicitOrConditional::Explicit(Err(e)) => Some(e@),
            LocalExplicitOrConditional::Explicit(Ok(_)) => None,
            LocalExplicitOrConditional::Conditional(p) => first_of(
                conditional_refusal(p.conditional@),
                compile_refusal(p.conditional@),
            ),
        }
    }

    /// The transformations with their conditions.
    pub open spec fn transformation(self) -> Seq<EntryView<PolicyBody>> {
        match self {
            LocalExplicitOrConditional::Explicit(p) => always(*p->Ok_0),
            LocalExplicitOrConditional::Conditional(p) => compiled_entries(p.conditional@),
        }
    }

    /// The transformation that requests meet.
    pub fn into_transformation_policy(self) -> (r: Result<RequestPolicy<PolicyBody>, ConfigError>)
        ensures
            match r {
                Ok(p) => self.transformation_refusal() is None && p@ == self.transformation(),
                Err(e) => self.transformation_refusal() == Some(e@),
            },
    {
        match self {
            LocalExplicitOrConditional::Explicit(Ok(policy)) => {
                let r = RequestPolicy::Single(policy);
                assert(r@ =~= always(*policy));
                Ok(r)
            },
            LocalExplicitOrConditional::Explicit(Err(e)) => Err(ConfigError::of(e)),
            LocalExplicitOrConditional::Conditional(policies) => {
                validate_local_conditional_policies(&policies)?;
                let ghost all = policies.conditional@;
                let list = policies.conditional;
                let mut out: Vec<ConditionalEntry<PolicyBody>> = Vec::new();
                let mut i: usize = 0;
                while i < list.len()
                    invariant
                        list@ == all,
                        i <= all.len(),
                        compile_refusal(all.take(i as int)) is None,
                        out@.len() == i,
                        forall|j: int|
                            0 <= j < i ==> entry_view(#[trigger] out@[j])
                                == compiled_entries(all)[j],
                        self.transformation_refusal() == compile_refusal(all),
                    decreases all.len() - i,
                {
                    proof {
                        lemma_first_refusal(all, entry_refusal(), i as int);
                    }
                    match &*list[i].policy {
                        Ok(p) => {
                            out.push(
                                ConditionalEntry {
                                    policy: p.clone(),
                                    condition: crate::types::policy::share(&list[i].condition),
                                },
                            );
                        },
                        Err(e) => {
                            return Err(ConfigError::of(e.clone()));
                        },
                    }
                    i = i + 1;
                }
                assert(all.take(i as int) =~= all);
                let r = RequestPolicy::from_policies(out);
                assert(r@ =~= compiled_entries(all));
                Ok(r)
            },
        }
    }
}

/// Limits on the rate of requests: a list of them, or limits that apply under conditions.
#[derive(Debug)]
pub enum LocalRateLimitPolicy {
    Conditional(LocalConditionalPolicies<PolicyBody>),
    Explicit(Vec<Arc<PolicyBody>>),
}

/// The limits with their conditions, each limit as a list of its own.
pub open spec fn limit_entries(entries: Seq<LocalConditionalPolicy<PolicyBody>>) -> Seq<
    EntryView<Seq<Arc<PolicyBody>>>,
> {
    entries.map_values(
        |e: LocalConditionalPolicy<PolicyBody>|
            (
                seq![e.policy],
                match e.condition {
                    Some(c) => Some(*c),
                    None => None,
                },
            ),
    )
}

impl LocalRateLimitPolicy {
    /// Whether there is no limit.
    pub open spec fn none(self) -> bool {
        match self {
            LocalRateLimitPolicy::Conditional(p) => p.conditional@.len() == 0,
            LocalRateLimitPolicy::Explicit(p) => p@.len() == 0,
        }
    }

    /// Why the limits are refused, if they are.
    pub open spec fn refusal(self) -> Option<Text> {
        match self {
            LocalRateLimitPolicy::Conditional(p) => conditional_refusal(p.conditional@),
            LocalRateLimitPolicy::Explicit(_) => None,
        }
    }

    /// The limits with their conditions.
    pub open spec fn policy(self) -> Seq<EntryView<Seq<Arc<PolicyBody>>>> {
        match self {
            LocalRateLimitPolicy::Conditional(p) => limit_entries(p.conditional@),
            LocalRateLimitPolicy::Explicit(p) => always(p@),
        }
    }

    /// Whether there is no limit.
    pub fn is_empty(&self) -> (r: bool)
        ensures
            r == self.none(),
    {
        match self {
            LocalRateLimitPolicy::Conditional(p) => p.conditional.len() == 0,
            LocalRateLimitPolicy::Explicit(p) => p.len() == 0,
        }
    }

    /// The limits that requests meet.
    pub fn into_request_policy(self) -> (r: Result<RequestPolicy<RateLimits>, ConfigError>)
        ensures
            match r {
                Ok(p) => self.refusal() is None && p@ == self.policy(),
                Err(e) => self.refusal() == Some(e@),
            },
    {
        match self {
            LocalRateLimitPolicy::Explicit(limits) => Ok(unconditional(RateLimits { limits })),
            LocalRateLimitPolicy::Conditional(policies) => {
                validate_local_conditional_policies(&policies)?;
                let ghost all = policies.conditional@;
                let list = policies.conditional;
                let mut out: Vec<ConditionalEntry<RateLimits>> = Vec::new();
                let mut i: usize = 0;
                while i < list.len()
                    invariant
                        list@ == all,
                        i <= all.len(),
                        out@.len() == i,
                        forall|j: int|
                            0 <= j < i ==> entry_view(#[trigger] out@[j]) == limit_entries(all)[j],
                    decreases all.len() - i,
                {
                    let limits = vec![list[i].policy.clone()];
                    assert(limits@ =~= seq![all[i as int].policy]);
                    out.push(
                        ConditionalEntry {
                            policy: Arc::new(RateLimits { limits }),
                            condition: crate::types::policy::share(&list[i].condition),
                        },
                    );
                    i = i + 1;
                }
                let r = RequestPolicy::from_policies(out);
                assert(r@ =~= limit_entries(all));
                Ok(r)
            },
        }
    }
}

} // verus!
