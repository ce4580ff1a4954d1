//! Policies and providers of large language models.

use std::sync::Arc;

use vstd::prelude::*;

use crate::text::{opt_text, opt_view, views, Text};
use crate::types::agent::{Target, TargetView};
use crate::types::policy::PolicyBody;
use crate::types::traffic::{BackendTrafficPolicy, BackendTrafficPolicyView};

verus! {

/// The API that requests to a path speak.
#[derive(Debug, Clone, Copy, PartialEq, Eq, Structural)]
pub enum RouteType {
    Completions,
    Messages,
    Models,
    Passthrough,
    Detect,
    Responses,
    Embeddings,
    Realtime,
    AnthropicTokenCount,
}

/// How requests to a model are handled.
#[derive(Debug)]
pub struct Policy {
    pub prompt_guard: Option<Arc<PolicyBody>>,
    pub defaults: Option<Arc<PolicyBody>>,
    pub overrides: Option<Arc<PolicyBody>>,
    pub transformations: Option<Arc<PolicyBody>>,
    pub prompts: Option<Arc<PolicyBody>>,
    /// The model that each alias stands for.
    pub model_aliases: Arc<Vec<(String, String)>>,
    /// The compiled patterns of the aliases that hold a wildcard.
    pub wildcard_patterns: Arc<Vec<(String, String)>>,
    pub prompt_caching: Option<Arc<PolicyBody>>,
    /// The API of each path suffix.
    pub routes: Arc<Vec<(String, RouteType)>>,
}

/// What a [`Policy`] holds.
#[verifier::ext_equal]
pub struct PolicyView {
    pub prompt_guard: Option<Arc<PolicyBody>>,
    pub defaults: Option<Arc<PolicyBody>>,
    pub overrides: Option<Arc<PolicyBody>>,
    pub transformations: Option<Arc<PolicyBody>>,
    pub prompts: Option<Arc<PolicyBody>>,
    pub model_aliases: Seq<(Text, Text)>,
    pub wildcard_patterns: Seq<(Text, Text)>,
    pub prompt_caching: Option<Arc<PolicyBody>>,
    pub routes: Seq<(Text, RouteType)>,
}

/// The paths of a list of routes, as texts.
pub open spec fn route_texts(routes: Seq<(String, RouteType)>) -> Seq<(Text, RouteType)> {
    routes.map_values(|p: (String, RouteType)| (p.0@, p.1))
}

impl View for Policy {
    type V = PolicyView;

    open spec fn view(&self) -> PolicyView {
        PolicyView {
            prompt_guard: self.prompt_guard,
            defaults: self.defaults,
            overrides: self.overrides,
            transformations: self.transformations,
            prompts: self.prompts,
            model_aliases: crate::types::policy::pair_texts(self.model_aliases@),
            wildcard_patterns: crate::types::policy::pair_texts(self.wildcard_patterns@),
            prompt_caching: self.prompt_caching,
            routes: route_texts(self.routes@),
        }
    }
}

impl Policy {
    /// A policy that sets nothing.
    pub open spec fn empty_view() -> PolicyView {
        PolicyView {
            prompt_guard: None,
            defaults: None,
            overrides: None,
            transformations: None,
            prompts: None,
            model_aliases: Seq::empty(),
            wildcard_patterns: Seq::empty(),
            prompt_caching: None,
            routes: Seq::empty(),
        }
    }

    /// A policy that sets nothing.
    pub fn empty() -> (r: Self)
        ensures
            r@ == Policy::empty_view(),
    {
        let r = Policy {
            prompt_guard: None,
            defaults: None,
            overrides: None,
            transformations: None,
            prompts: None,
            model_aliases: Arc::new(Vec::new()),
            wildcard_patterns: Arc::new(Vec::new()),
            prompt_caching: None,
            routes: Arc::new(Vec::new()),
        };
        assert(r@ =~= Policy::empty_view());
        r
    }
}

/// The kind of an Azure endpoint.
#[derive(Debug, Clone, Copy, PartialEq, Eq, Structural)]
pub enum AzureResourceType {
    OpenAI,
    Foundry,
}

/// A provider of models, with the model to ask for. Without a model the request's own is kept.
#[allow(inconsistent_fields)]
#[derive(Debug)]
pub enum AIProvider {
    Anthropic { model: Option<String> },
    OpenAI { model: Option<String> },
    Copilot { model: Option<String> },
    Gemini { model: Option<String> },
    Vertex { model: Option<String>, region: Option<String>, project_id: String },
    Bedrock {
        model: Option<String>,
        region: String,
        guardrail_identifier: Option<String>,
        guardrail_version: Option<String>,
    },
    Azure {
        model: Option<String>,
        resource_name: String,
        resource_type: AzureResourceType,
        api_version: Option<String>,
        project_name: Option<String>,
    },
}

/// The providers that a local model can name.
#[derive(Debug, Clone, Copy, PartialEq, Eq, Structural)]
pub enum LocalModelAIProvider {
    Anthropic,
    OpenAI,
    Copilot,
    Gemini,
    Vertex,
    Bedrock,
    Azure,
}

/// A provider with the name under which it is selected.
#[derive(Debug)]
pub struct NamedAIProvider {
    pub name: String,
    pub provider: AIProvider,
    pub host_override: Option<Target>,
    pub path_override: Option<String>,
    pub path_prefix: Option<String>,
    pub tokenize: bool,
    pub inline_policies: Vec<BackendTrafficPolicy>,
}

/// What a [`NamedAIProvider`] holds.
#[verifier::ext_equal]
pub struct NamedAIProviderView {
    pub name: Text,
    pub provider: AIProvider,
    pub host_override: Option<TargetView>,
    pub path_override: Option<Text>,
    pub path_prefix: Option<Text>,
    pub tokenize: bool,
    pub inline_policies: Seq<BackendTrafficPolicyView>,
}

impl View for NamedAIProvider {
    type V = NamedAIProviderView;

    open spec fn view(&self) -> NamedAIProviderView {
        NamedAIProviderView {
            name: self.name@,
            provider: self.provider,
            host_override: opt_view(self.host_override),
            path_override: opt_text(self.path_override),
            path_prefix: opt_text(self.path_prefix),
            tokenize: self.tokenize,
            inline_policies: views(self.inline_policies@),
        }
    }
}

/// Groups of providers, in order of preference.
#[derive(Debug)]
pub struct AIBackend {
    pub providers: Vec<Vec<(String, NamedAIProvider)>>,
}

/// The names and providers of a group.
pub open spec fn group_view(
    group: Seq<(String, NamedAIProvider)>,
) -> Seq<(Text, NamedAIProviderView)> {
    group.map_values(|p: (String, NamedAIProvider)| (p.0@, p.1@))
}

impl View for AIBackend {
    type V = Seq<Seq<(Text, NamedAIProviderView)>>;

    open spec fn view(&self) -> Seq<Seq<(Text, NamedAIProviderView)>> {
        self.providers@.map_values(|g: Vec<(String, NamedAIProvider)>| group_view(g@))
    }
}

impl AIBackend {
    /// Whether some provider counts the tokens of requests.
    pub open spec fn tokenizes(&self) -> bool {
        exists|i: int, j: int|
            0 <= i < self.providers@.len() && 0 <= j < self.providers@[i]@.len() && (
            #[trigger] self.providers@[i]@[j]).1.tokenize
    }

    /// Whether some provider counts the tokens of requests.
    pub fn any_tokenize(&self) -> (r: bool)
        ensures
            r == self.tokenizes(),
    {
        let mut i: usize = 0;
        while i < self.providers.len()
            invariant
                i <= self.providers@.len(),
                forall|a: int, b: int|
                    0 <= a < i && 0 <= b < self.providers@[a]@.len() ==> !(
                    #[trigger] self.providers@[a]@[b]).1.tokenize,
            decreases self.providers@.len() - i,
        {
            let group = &self.providers[i];
            let mut j: usize = 0;
            while j < group.len()
                invariant
                    i < self.providers@.len(),
                    *group == self.providers@[i as int],
                    j <= group@.len(),
                    forall|b: int|
                        0 <= b < j ==> !(#[trigger] self.providers@[i as int]@[b]).1.tokenize,
                decreases group@.len() - j,
            {
                if group[j].1.tokenize {
                    assert(self.providers@[i as int]@[j as int].1.tokenize);
                    return true;
                }
                j = j + 1;
            }
            i = i + 1;
        }
        false
    }
}

} // verus!
