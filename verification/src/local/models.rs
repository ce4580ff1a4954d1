//! Models, as a configuration writes them.

use std::sync::Arc;

use vstd::prelude::*;
use vstd::string::*;

use crate::local::error::{ConfigError, Loaded};
use crate::text::{join2, join3, opt_text, opt_view, same_text, Text};
use crate::types::agent::{HeaderMatch, HeaderValueMatch, HeaderValueMatchView, Target, TargetView};
use crate::types::llm::{AIProvider, AzureResourceType, LocalModelAIProvider};
use crate::types::policy::{first_of, BackendAuth, HeaderModifier, PolicyBody};

verus! {

/// A secret that was read from a file, or written in place.
#[derive(Debug)]
pub struct SecretFromFile {
    pub value: String,
}

/// Parameters of the requests to the provider of a model.
#[derive(Debug)]
pub struct LocalLLMParams {
    /// The model to send to the provider. If unset, that of the request.
    pub model: Option<String>,
    /// An API key to attach to the request.
    pub api_key: Option<SecretFromFile>,
    /// For Bedrock: the AWS region to use.
    pub aws_region: Option<String>,
    /// For Vertex: the Google region to use.
    pub vertex_region: Option<String>,
    /// For Vertex: the Google project to use.
    pub vertex_project: Option<String>,
    /// For Azure: the resource name of the deployment.
    pub azure_resource_name: Option<String>,
    /// For Azure: the type of endpoint.
    pub azure_resource_type: Option<AzureResourceType>,
    /// For Azure: the API version to use.
    pub azure_api_version: Option<String>,
    /// For Azure: the Foundry project name.
    pub azure_project_name: Option<String>,
    /// Base URL of the provider. Sets the host and the path prefix, and TLS for an https URL.
    pub base_url: Option<String>,
    /// Override the upstream host for this provider.
    pub host_override: Option<Target>,
    /// Override the upstream path for this provider.
    pub path_override: Option<String>,
    /// Override the default base path prefix for this provider.
    pub path_prefix: Option<String>,
    /// Whether to tokenize the request before forwarding it upstream.
    pub tokenize: bool,
}

/// What a request must hold, besides the name of the model, for the model to be used.
#[derive(Debug)]
pub struct LLMRouteMatch {
    pub headers: Vec<Arc<HeaderMatch>>,
}

/// A model that the gateway serves.
#[derive(Debug)]
pub struct LocalLLMModels {
    /// The name of the model in requests. One `*` at its beginning or end stands for anything.
    pub name: String,
    pub params: LocalLLMParams,
    pub provider: LocalModelAIProvider,
    /// Values that are set where the request does not set them.
    pub defaults: Option<Arc<PolicyBody>>,
    /// Values that are set in any case.
    pub overrides: Option<Arc<PolicyBody>>,
    /// Values that are set in any case, from expressions.
    pub transformation: Option<Arc<PolicyBody>>,
    /// Modifies headers in requests to the provider.
    pub request_headers: Option<HeaderModifier>,
    /// Modifies headers in responses from the provider.
    pub response_headers: Option<Arc<HeaderModifier>>,
    /// TLS to the provider.
    pub backend_tls: Option<Loaded<PolicyBody>>,
    /// Authentication to the provider.
    pub auth: Option<Arc<BackendAuth>>,
    /// Outlier detection.
    pub health: Option<Loaded<PolicyBody>>,
    /// Tunneling to the provider.
    pub backend_tunnel: Option<Arc<PolicyBody>>,
    /// Guardrails of requests and responses.
    pub guardrails: Option<Arc<PolicyBody>>,
    /// The conditions under which the model is used in addition to its name.
    pub matches: Vec<LLMRouteMatch>,
}

// ---------------------------------------------------------------------------------------------
// Base URLs
// ---------------------------------------------------------------------------------------------

/// The parts of a URL.
#[derive(Debug)]
pub struct UrlParts {
    pub scheme: String,
    pub host: Option<String>,
    /// The port that is named, or that the scheme has.
    pub port: Option<u16>,
    pub path: String,
}

/// What [`UrlParts`] hold.
pub struct UrlPartsView {
    pub scheme: Text,
    pub host: Option<Text>,
    pub port: Option<u16>,
    pub path: Text,
}

impl View for UrlParts {
    type V = UrlPartsView;

    open spec fn view(&self) -> UrlPartsView {
        UrlPartsView {
            scheme: self.scheme@,
            host: opt_text(self.host),
            port: self.port,
            path: self.path@,
        }
    }
}

/// The parts of a URL that is written so, if it is one.
pub uninterp spec fn parsed_url(text: Text) -> Option<UrlPartsView>;

/// `url::Url::parse`, with the scheme, the host, the port (the one that is named, or that the
/// scheme is known to have) and the path of the URL that it gives. They depend on the text alone.
#[verifier::external_body]
fn parse_url(text: &str) -> (r: Option<UrlParts>)
    ensures
        opt_view(r) == parsed_url(text@),
{
    let url = url::Url::parse(text).ok()?;
    Some(UrlParts {
        scheme: url.scheme().to_owned(),
        host: url.host_str().map(|h| h.to_owned()),
        port: url.port_or_known_default(),
        path: url.path().to_owned(),
    })
}

/// A path without the slashes at its end.
pub open spec fn trimmed(path: Text) -> Text
    decreases path.len(),
{
    if path.len() > 0 && path.last() == '/' {
        trimmed(path.drop_last())
    } else {
        path
    }
}

/// A path without the slashes at its end.
pub fn trim_slashes(path: &str) -> (r: String)
    ensures
        r@ == trimmed(path@),
{
    let mut n: usize = path.unicode_len();
    assert(path@.take(n as int) =~= path@);
    while n > 0 && path.get_char(n - 1) == '/'
        invariant
            n <= path@.len(),
            trimmed(path@.take(n as int)) == trimmed(path@),
        decreases n,
    {
        assert(path@.take(n as int).drop_last() =~= path@.take(n as int - 1));
        n = n - 1;
    }
    assert(path@.subrange(0, n as int) =~= path@.take(n as int));
    path.substring_char(0, n).to_owned()
}

/// What a base URL sets.
pub struct BaseView {
    pub host: TargetView,
    /// The path, if it is more than slashes.
    pub prefix: Option<Text>,
    pub https: bool,
}

/// What the parts of the base URL of a model set, or why they are refused.
pub open spec fn base_of(name: Text, url: Option<UrlPartsView>) -> Result<BaseView, Text> {
    match url {
        None => Err("invalid params.baseUrl for model "@ + name),
        Some(u) => match (u.port, u.host) {
            (None, _) => Err(
                "params.baseUrl for model "@ + name
                    + " must use http or https, or include an explicit port"@,
            ),
            (Some(_), None) => Err("params.baseUrl for model "@ + name + " must include a host"@),
            (Some(port), Some(host)) => Ok(
                BaseView {
                    host: TargetView { host, port },
                    prefix: if trimmed(u.path).len() == 0 {
                        None
                    } else {
                        Some(trimmed(u.path))
                    },
                    https: u.scheme == "https"@,
                },
            ),
        },
    }
}

/// What a base URL sets.
#[derive(Debug)]
pub struct Base {
    pub host: Target,
    pub prefix: Option<String>,
    pub https: bool,
}

impl View for Base {
    type V = BaseView;

    open spec fn view(&self) -> BaseView {
        BaseView { host: self.host@, prefix: opt_text(self.prefix), https: self.https }
    }
}

/// What the parts of the base URL of a model set, or why they are refused.
pub fn read_base(name: &str, url: Option<UrlParts>) -> (r: Result<Base, ConfigError>)
    ensures
        match r {
            Ok(b) => base_of(name@, opt_view(url)) == Ok::<BaseView, Text>(b@),
            Err(e) => base_of(name@, opt_view(url)) == Err::<BaseView, Text>(e@),
        },
{
    let url = match url {
        Some(u) => u,
        None => {
            return Err(ConfigError::of(join2("invalid params.baseUrl for model ", name)));
        },
    };
    let port: u16 = match url.port {
        Some(p) => p,
        None => {
            return Err(
                ConfigError::of(
                    join3(
                        "params.baseUrl for model ",
                        name,
                        " must use http or https, or include an explicit port",
                    ),
                ),
            );
        },
    };
    let host = match url.host {
        Some(h) => h,
        None => {
            return Err(
                ConfigError::of(
                    join3("params.baseUrl for model ", name, " must include a host"),
                ),
            );
        },
    };
    let path = trim_slashes(url.path.as_str());
    let prefix = if path.as_str().unicode_len() == 0 {
        None
    } else {
        Some(path)
    };
    Ok(
        Base {
            host: Target { host, port },
            prefix,
            https: same_text(url.scheme.as_str(), "https"),
        },
    )
}

impl LocalLLMModels {
    /// What the base URL of the model sets, or why it is refused. Without one nothing is set.
    pub open spec fn base(self) -> Option<Result<BaseView, Text>> {
        match self.params.base_url {
            Some(u) => Some(base_of(self.name@, parsed_url(u@))),
            None => None,
        }
    }

    /// Why the base URL of the model is refused, if it is.
    pub open spec fn base_refusal(self) -> Option<Text> {
        match self.base() {
            Some(Err(e)) => Some(e),
            _ => None,
        }
    }

    /// The host that requests to the model go to, if it is not the usual one.
    pub open spec fn host(self) -> Option<TargetView> {
        match self.base() {
            Some(Ok(b)) => Some(b.host),
            _ => opt_view(self.params.host_override),
        }
    }

    /// The path prefix of requests to the model, if it is not the usual one.
    pub open spec fn prefix(self) -> Option<Text> {
        match self.base() {
            Some(Ok(b)) => first_of(b.prefix, opt_text(self.params.path_prefix)),
            _ => opt_text(self.params.path_prefix),
        }
    }

    /// The settings of TLS to the model, if there are any: those that are set, or the default ones
    /// where the base URL asks for TLS.
    pub open spec fn tls(self, default_tls: Loaded<PolicyBody>) -> Option<Loaded<PolicyBody>> {
        match (self.backend_tls, self.base()) {
            (None, Some(Ok(b))) => if b.https {
                Some(default_tls)
            } else {
                None
            },
            (set, _) => set,
        }
    }

    /// Takes the host, the path prefix and TLS from the base URL, if there is one.
    pub fn apply_base_url(&mut self, default_tls: &Loaded<PolicyBody>) -> (r: Result<
        (),
        ConfigError,
    >)
        ensures
            match r {
                Ok(_) => {
                    &&& old(self).base_refusal() is None
                    &&& opt_view(final(self).params.host_override) == old(self).host()
                    &&& opt_text(final(self).params.path_prefix) == old(self).prefix()
                    &&& final(self).backend_tls == old(self).tls(*default_tls)
                    &&& *final(self) == (LocalLLMModels {
                        params: LocalLLMParams {
                            host_override: final(self).params.host_override,
                            path_prefix: final(self).params.path_prefix,
                            ..old(self).params
                        },
                        backend_tls: final(self).backend_tls,
                        ..*old(self)
                    })
                },
                Err(e) => old(self).base_refusal() == Some(e@) && *final(self) == *old(self),
            },
    {
        let url = match &self.params.base_url {
            Some(u) => parse_url(u.as_str()),
            None => {
                return Ok(());
            },
        };
        let base = read_base(self.name.as_str(), url)?;
        self.params.host_override = Some(base.host);
        match base.prefix {
            Some(p) => {
                self.params.path_prefix = Some(p);
            },
            None => {},
        }
        if base.https && self.backend_tls.is_none() {
            self.backend_tls = Some(
                match default_tls {
                    Ok(p) => Ok(p.clone()),
                    Err(e) => Err(e.clone()),
                },
            );
        }
        Ok(())
    }
}

// ---------------------------------------------------------------------------------------------
// Providers
// ---------------------------------------------------------------------------------------------

impl LocalLLMModels {
    /// Why the provider is refused, if it is: a parameter that it needs is missing.
    pub open spec fn provider_refusal(self) -> Option<Text> {
        match self.provider {
            LocalModelAIProvider::Vertex => if self.params.vertex_project is None {
                Some("vertex requires vertex_project"@)
            } else {
                None
            },
            LocalModelAIProvider::Bedrock => if self.params.aws_region is None {
                Some("bedrock requires aws_region"@)
            } else {
                None
            },
            LocalModelAIProvider::Azure => if self.params.azure_resource_name is None {
                Some("azure requires azureResourceName"@)
            } else if self.params.azure_resource_type is None {
                Some("azure requires azureResourceType"@)
            } else {
                None
            },
            _ => None,
        }
    }

    /// The provider, with the model that it is asked for.
    pub open spec fn provided(self) -> AIProvider {
        let model = self.params.model;
        match self.provider {
            LocalModelAIProvider::Anthropic => AIProvider::Anthropic { model },
            LocalModelAIProvider::OpenAI => AIProvider::OpenAI { model },
            LocalModelAIProvider::Copilot => AIProvider::Copilot { model },
            LocalModelAIProvider::Gemini => AIProvider::Gemini { model },
            LocalModelAIProvider::Vertex => AIProvider::Vertex {
                model,
                region: self.params.vertex_region,
                project_id: self.params.vertex_project->0,
            },
            LocalModelAIProvider::Bedrock => AIProvider::Bedrock {
                model,
                region: self.params.aws_region->0,
                guardrail_identifier: None,
                guardrail_version: None,
            },
            LocalModelAIProvider::Azure => AIProvider::Azure {
                model,
                resource_name: self.params.azure_resource_name->0,
                resource_type: self.params.azure_resource_type->0,
                api_version: self.params.azure_api_version,
                project_name: self.params.azure_project_name,
            },
        }
    }

    /// The provider, with the model that it is asked for.
    pub fn make_provider(&self) -> (r: Result<AIProvider, ConfigError>)
        ensures
            match r {
                Ok(p) => self.provider_refusal() is None && p == self.provided() && self.params.model
                    == (match p {
                    AIProvider::Anthropic { model } => model,
                    AIProvider::OpenAI { model } => model,
                    AIProvider::Copilot { model } => model,
                    AIProvider::Gemini { model } => model,
                    AIProvider::Vertex { model, .. } => model,
                    AIProvider::Bedrock { model, .. } => model,
                    AIProvider::Azure { model, .. } => model,
                }),
                Err(e) => self.provider_refusal() == Some(e@),
            },
    {
        let p = &self.params;
        let model = crate::text::clone_text(&p.model);
        match self.provider {
            LocalModelAIProvider::Anthropic => Ok(AIProvider::Anthropic { model }),
            LocalModelAIProvider::OpenAI => Ok(AIProvider::OpenAI { model }),
            LocalModelAIProvider::Copilot => Ok(AIProvider::Copilot { model }),
            LocalModelAIProvider::Gemini => Ok(AIProvider::Gemini { model }),
            LocalModelAIProvider::Vertex => match &p.vertex_project {
                Some(project) => Ok(
                    AIProvider::Vertex {
                        model,
                        region: crate::text::clone_text(&p.vertex_region),
                        project_id: project.clone(),
                    },
                ),
                None => Err(ConfigError::new("vertex requires vertex_project")),
            },
            LocalModelAIProvider::Bedrock => match &p.aws_region {
                Some(region) => Ok(
                    AIProvider::Bedrock {
                        model,
                        region: region.clone(),
                        guardrail_identifier: None,
                        guardrail_version: None,
                    },
                ),
                None => Err(ConfigError::new("bedrock requires aws_region")),
            },
            LocalModelAIProvider::Azure => match (&p.azure_resource_name, p.azure_resource_type) {
                (None, _) => Err(ConfigError::new("azure requires azureResourceName")),
                (Some(_), None) => Err(ConfigError::new("azure requires azureResourceType")),
                (Some(resource_name), Some(resource_type)) => Ok(
                    AIProvider::Azure {
                        model,
                        resource_name: resource_name.clone(),
                        resource_type,
                        api_version: crate::text::clone_text(&p.azure_api_version),
                        project_name: crate::text::clone_text(&p.azure_project_name),
                    },
                ),
            },
        }
    }
}

// ---------------------------------------------------------------------------------------------
// Names of models
// ---------------------------------------------------------------------------------------------

/// Whether a character can stand in the value of a header.
pub open spec fn is_value_char(c: char) -> bool {
    (c as u32 >= 32 && c as u32 != 127) || c as u32 == 9
}

/// `http::HeaderValue::from_str`: a value can hold every character but the control characters,
/// among which a tab is allowed. What is said of another value is always the same.
#[verifier::external_body]
fn check_header_value(text: &str) -> (r: Result<(), String>)
    ensures
        r is Ok <==> (forall|i: int| 0 <= i < text@.len() ==> is_value_char(#[trigger] text@[i])),
        r matches Err(e) ==> e@ == "failed to parse header value"@,
{
    match http::HeaderValue::from_str(text) {
        Ok(_) => Ok(()),
        Err(e) => Err(e.to_string()),
    }
}

/// Whether a character means something in a regular expression.
pub open spec fn is_meta(c: char) -> bool {
    c == '\\' || c == '.' || c == '+' || c == '*' || c == '?' || c == '(' || c == ')' || c == '|'
        || c == '[' || c == ']' || c == '{' || c == '}' || c == '^' || c == '$' || c == '#'
        || c == '&' || c == '-' || c == '~'
}

/// The text with a backslash before each character that means something in a regular expression.
pub open spec fn escaped(text: Text) -> Text
    decreases text.len(),
{
    if text.len() == 0 {
        Seq::empty()
    } else {
        let before = escaped(text.drop_last());
        if is_meta(text.last()) {
            before.push('\\').push(text.last())
        } else {
            before.push(text.last())
        }
    }
}

/// `regex::escape`: the text with a backslash before each character that means something in a
/// regular expression.
#[verifier::external_body]
fn escape(text: &str) -> (r: String)
    ensures
        r@ == escaped(text@),
{
    regex::escape(text)
}

/// Why a pattern is no regular expression, if it is none.
pub uninterp spec fn regex_refusal(pattern: Text) -> Option<Text>;

/// `regex::Regex::new`: whether a pattern is a regular expression, and what is said of it if it is
/// none. Both depend on the pattern alone.
#[verifier::external_body]
fn check_regex(pattern: &str) -> (r: Option<String>)
    ensures
        opt_text(r) == regex_refusal(pattern@),
{
    regex::Regex::new(pattern).err().map(|e| e.to_string())
}

/// How often a text holds a `*`.
pub open spec fn stars(text: Text) -> nat
    decreases text.len(),
{
    if text.len() == 0 {
        0
    } else {
        stars(text.drop_last()) + if text.last() == '*' {
            1nat
        } else {
            0nat
        }
    }
}

fn count_stars(text: &str) -> (r: usize)
    ensures
        r == stars(text@),
{
    let n: usize = text.unicode_len();
    let mut count: usize = 0;
    let mut i: usize = 0;
    assert(text@.take(0).len() == 0);
    while i < n
        invariant
            n == text@.len(),
            i <= n,
            count <= i,
            count == stars(text@.take(i as int)),
        decreases n - i,
    {
        assert(text@.take(i as int + 1).drop_last() =~= text@.take(i as int));
        if text.get_char(i) == '*' {
            count = count + 1;
        }
        i = i + 1;
    }
    assert(text@.take(n as int) =~= text@);
    count
}

/// What the name of a model matches: itself, or a pattern, if it begins or ends with a `*`, which
/// stands for anything. Nothing where the name cannot be matched; then why.
pub open spec fn name_pattern(name: Text) -> Result<HeaderValueMatchView, Text> {
    if stars(name) > 1 {
        Err("model name '"@ + name + "' may only include a single '*' wildcard"@)
    } else if stars(name) == 0 {
        if forall|i: int| 0 <= i < name.len() ==> is_value_char(#[trigger] name[i]) {
            Ok(HeaderValueMatchView::Exact(name))
        } else {
            Err("failed to parse header value"@)
        }
    } else if name == "*"@ {
        Ok(HeaderValueMatchView::Regex(".*"@))
    } else if name[0] == '*' {
        Ok(HeaderValueMatchView::Regex(".*"@ + escaped(name.drop_first())))
    } else if name.last() == '*' {
        Ok(HeaderValueMatchView::Regex(escaped(name.drop_last()) + ".*"@))
    } else {
        Err("model name wildcard must be either at the beginning or the end: '"@ + name + "'"@)
    }
}

/// What the name of a model matches, once its pattern was compiled.
pub open spec fn name_match(name: Text) -> Result<HeaderValueMatchView, Text> {
    match name_pattern(name) {
        Ok(HeaderValueMatchView::Regex(p)) => match regex_refusal(p) {
            Some(e) => Err(e),
            None => Ok(HeaderValueMatchView::Regex(p)),
        },
        other => other,
    }
}

proof fn lemma_stars(text: Text)
    requires
        stars(text) > 0,
    ensures
        text.len() > 0,
{
}

/// What the name of a model matches, before its pattern is compiled.
pub fn llm_model_name_pattern(model_name: &str) -> (r: Result<HeaderValueMatch, ConfigError>)
    ensures
        match r {
            Ok(m) => name_pattern(model_name@) == Ok::<HeaderValueMatchView, Text>(m@),
            Err(e) => name_pattern(model_name@) == Err::<HeaderValueMatchView, Text>(e@),
        },
{
    let wildcards: usize = count_stars(model_name);
    if wildcards > 1 {
        return Err(
            ConfigError::of(
                join3("model name '", model_name, "' may only include a single '*' wildcard"),
            ),
        );
    }
    if wildcards == 0 {
        return match check_header_value(model_name) {
            Ok(_) => Ok(HeaderValueMatch::Exact(model_name.to_owned())),
            Err(e) => Err(ConfigError::of(e)),
        };
    }
    if same_text(model_name, "*") {
        return Ok(HeaderValueMatch::Regex(".*".to_owned()));
    }
    proof {
        lemma_stars(model_name@);
    }
    let n: usize = model_name.unicode_len();
    if model_name.get_char(0) == '*' {
        let suffix = model_name.substring_char(1, n);
        assert(suffix@ =~= model_name@.drop_first());
        return Ok(HeaderValueMatch::Regex(join2(".*", escape(suffix).as_str())));
    }
    if model_name.get_char(n - 1) == '*' {
        let prefix = model_name.substring_char(0, n - 1);
        assert(prefix@ =~= model_name@.drop_last());
        return Ok(HeaderValueMatch::Regex(join2(escape(prefix).as_str(), ".*")));
    }
    Err(
        ConfigError::of(
            join3(
                "model name wildcard must be either at the beginning or the end: '",
                model_name,
                "'",
            ),
        ),
    )
}

/// What the name of a model matches.
pub fn llm_model_name_header_match(model_name: &str) -> (r: Result<HeaderValueMatch, ConfigError>)
    ensures
        match r {
            Ok(m) => name_match(model_name@) == Ok::<HeaderValueMatchView, Text>(m@),
            Err(e) => name_match(model_name@) == Err::<HeaderValueMatchView, Text>(e@),
        },
{
    match llm_model_name_pattern(model_name)? {
        HeaderValueMatch::Exact(v) => Ok(HeaderValueMatch::Exact(v)),
        HeaderValueMatch::Regex(p) => match check_regex(p.as_str()) {
            Some(e) => Err(ConfigError::of(e)),
            None => Ok(HeaderValueMatch::Regex(p)),
        },
    }
}

} // verus!
