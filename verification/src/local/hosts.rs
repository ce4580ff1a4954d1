//! The addresses of MCP targets, as a configuration writes them.

use vstd::prelude::*;

use crate::local::error::ConfigError;
use crate::text::{clone_text, join3, opt_text, same_text, Text};
use crate::types::agent::{
    BackendKey, SimpleBackendReference, SimpleBackendReferenceView, Target, TargetView,
};

verus! {

/// The address of an MCP target: a host, or a backend.
#[derive(Debug)]
pub enum McpBackendHost {
    Host { host: String, port: Option<u16>, path: Option<String> },
    Backend { backend: BackendKey, path: Option<String> },
}

/// What an address comes to: a host to make a backend for, or a reference to a backend.
#[allow(inconsistent_fields)]
#[derive(Debug)]
pub enum ProcessedMcpBackendHost {
    Inline { backend: Target, path: String, tls: bool },
    Reference { backend: SimpleBackendReference, path: Option<String> },
}

/// What a [`ProcessedMcpBackendHost`] holds.
#[allow(inconsistent_fields)]
pub enum ProcessedView {
    Inline { backend: TargetView, path: Text, tls: bool },
    Reference { backend: SimpleBackendReferenceView, path: Option<Text> },
}

impl View for ProcessedMcpBackendHost {
    type V = ProcessedView;

    open spec fn view(&self) -> ProcessedView {
        match self {
            ProcessedMcpBackendHost::Inline { backend, path, tls } => ProcessedView::Inline {
                backend: backend@,
                path: path@,
                tls: *tls,
            },
            ProcessedMcpBackendHost::Reference { backend, path } => ProcessedView::Reference {
                backend: backend@,
                path: opt_text(*path),
            },
        }
    }
}

/// The parts of a URI.
#[derive(Debug)]
pub struct UriParts {
    pub host: Option<String>,
    /// In lower case where it is `http` or `https`.
    pub scheme: Option<String>,
    pub port: Option<u16>,
    pub path: String,
}

/// What [`UriParts`] hold.
pub struct UriPartsView {
    pub host: Option<Text>,
    pub scheme: Option<Text>,
    pub port: Option<u16>,
    pub path: Text,
}

impl View for UriParts {
    type V = UriPartsView;

    open spec fn view(&self) -> UriPartsView {
        UriPartsView {
            host: opt_text(self.host),
            scheme: opt_text(self.scheme),
            port: self.port,
            path: self.path@,
        }
    }
}

/// The parts of a URI that is written so, or why it is none.
pub uninterp spec fn parsed_uri(text: Text) -> Result<UriPartsView, Text>;

/// `http::Uri::try_from` on text, with the host, the scheme, the port and the path of the URI that
/// it gives, or what it says of text that is no URI. Both depend on the text alone.
#[verifier::external_body]
fn parse_uri(text: &str) -> (r: Result<UriParts, String>)
    ensures
        parsed_uri(text@) == (match r {
            Ok(parts) => Ok(parts@),
            Err(e) => Err(e@),
        }),
{
    let uri = http::Uri::try_from(text).map_err(|e| e.to_string())?;
    Ok(UriParts {
        host: uri.host().map(|h| h.to_owned()),
        scheme: uri.scheme_str().map(|s| s.to_owned()),
        port: uri.port_u16(),
        path: uri.path().to_owned(),
    })
}

/// What the parts of a URI come to: the host, at the port that is named or that the scheme has,
/// and whether the scheme asks for TLS. Without a scheme it is `http`. Another scheme is refused.
pub open spec fn uri_target(uri: UriPartsView) -> Result<ProcessedView, Text> {
    match uri.host {
        None => Err("no host"@),
        Some(host) => {
            let scheme = match uri.scheme {
                Some(s) => s,
                None => "http"@,
            };
            if scheme == "http"@ {
                Ok(
                    ProcessedView::Inline {
                        backend: TargetView {
                            host,
                            port: match uri.port {
                                Some(p) => p,
                                None => 80,
                            },
                        },
                        path: uri.path,
                        tls: false,
                    },
                )
            } else if scheme == "https"@ {
                Ok(
                    ProcessedView::Inline {
                        backend: TargetView {
                            host,
                            port: match uri.port {
                                Some(p) => p,
                                None => 443,
                            },
                        },
                        path: uri.path,
                        tls: true,
                    },
                )
            } else {
                Err("invalid scheme: \""@ + scheme + "\""@)
            }
        },
    }
}

/// What the parts of a URI come to.
pub fn process_uri(uri: UriParts) -> (r: Result<ProcessedMcpBackendHost, ConfigError>)
    ensures
        match r {
            Ok(p) => uri_target(uri@) == Ok::<ProcessedView, Text>(p@),
            Err(e) => uri_target(uri@) == Err::<ProcessedView, Text>(e@),
        },
{
    proof {
        reveal_strlit("http");
        reveal_strlit("https");
        assert("http"@.len() == 4 && "https"@.len() == 5);
    }
    let host = match uri.host {
        Some(h) => h,
        None => {
            return Err(ConfigError::new("no host"));
        },
    };
    let scheme = match uri.scheme {
        Some(s) => s,
        None => "http".to_owned(),
    };
    if same_text(scheme.as_str(), "http") {
        let port: u16 = match uri.port {
            Some(p) => p,
            None => 80,
        };
        Ok(
            ProcessedMcpBackendHost::Inline {
                backend: Target { host, port },
                path: uri.path,
                tls: false,
            },
        )
    } else if same_text(scheme.as_str(), "https") {
        let port: u16 = match uri.port {
            Some(p) => p,
            None => 443,
        };
        Ok(
            ProcessedMcpBackendHost::Inline {
                backend: Target { host, port },
                path: uri.path,
                tls: true,
            },
        )
    } else {
        Err(ConfigError::of(join3("invalid scheme: \"", scheme.as_str(), "\"")))
    }
}

impl McpBackendHost {
    /// The address from the fields that a configuration sets. A host and a backend exclude each
    /// other, a port needs a host, and one of the two must be there.
    pub fn from_fields(
        host: Option<String>,
        port: Option<u16>,
        path: Option<String>,
        backend: Option<BackendKey>,
    ) -> (r: Result<Self, ConfigError>)
        ensures
            match (host, port, path, backend) {
                (Some(h), _, _, None) => r == Ok::<McpBackendHost, ConfigError>(
                    McpBackendHost::Host { host: h, port, path },
                ),
                (None, None, _, Some(b)) => r == Ok::<McpBackendHost, ConfigError>(
                    McpBackendHost::Backend { backend: b, path },
                ),
                (None, Some(_), _, Some(_)) => r is Err && r->Err_0@
                    == "cannot mix host/port with backend for MCP target backend configuration"@,
                (Some(_), _, _, Some(_)) => r is Err && r->Err_0@
                    == "cannot mix host/port with backend for MCP target backend configuration"@,
                (None, Some(_), _, None) => r is Err && r->Err_0@
                    == "host is required when port is set for MCP target backend configuration"@,
                (None, None, Some(_), None) => r is Err && r->Err_0@
                    == "host or backend is required when path is set for MCP target backend configuration"@,
                (None, None, None, None) => r is Err && r->Err_0@
                    == "host or backend is required for MCP target backend configuration"@,
            },
    {
        match (host, backend) {
            (Some(host), None) => Ok(McpBackendHost::Host { host, port, path }),
            (Some(_), Some(_)) => Err(
                ConfigError::new(
                    "cannot mix host/port with backend for MCP target backend configuration",
                ),
            ),
            (None, Some(backend)) => {
                if port.is_some() {
                    Err(
                        ConfigError::new(
                            "cannot mix host/port with backend for MCP target backend configuration",
                        ),
                    )
                } else {
                    Ok(McpBackendHost::Backend { backend, path })
                }
            },
            (None, None) => {
                if port.is_some() {
                    Err(
                        ConfigError::new(
                            "host is required when port is set for MCP target backend configuration",
                        ),
                    )
                } else if path.is_some() {
                    Err(
                        ConfigError::new(
                            "host or backend is required when path is set for MCP target backend configuration",
                        ),
                    )
                } else {
                    Err(
                        ConfigError::new(
                            "host or backend is required for MCP target backend configuration",
                        ),
                    )
                }
            },
        }
    }

    /// What the address comes to. A host with a port and a path is taken as it is; a host alone is
    /// a URI.
    pub open spec fn processed(self) -> Result<ProcessedView, Text> {
        match self {
            McpBackendHost::Backend { backend, path } => Ok(
                ProcessedView::Reference {
                    backend: SimpleBackendReferenceView::Backend(backend@),
                    path: opt_text(path),
                },
            ),
            McpBackendHost::Host { host, port: Some(port), path: Some(path) } => Ok(
                ProcessedView::Inline {
                    backend: TargetView { host: host@, port },
                    path: path@,
                    tls: false,
                },
            ),
            McpBackendHost::Host { host, port: None, path: None } => match parsed_uri(host@) {
                Ok(uri) => uri_target(uri),
                Err(e) => Err(e),
            },
            McpBackendHost::Host { .. } => Err(
                "if port or path is set, both must be set; otherwise, use only host"@,
            ),
        }
    }

    /// What the address comes to.
    pub fn process(&self) -> (r: Result<ProcessedMcpBackendHost, ConfigError>)
        ensures
            match r {
                Ok(p) => self.processed() == Ok::<ProcessedView, Text>(p@),
                Err(e) => self.processed() == Err::<ProcessedView, Text>(e@),
            },
    {
        match self {
            McpBackendHost::Backend { backend, path } => Ok(
                ProcessedMcpBackendHost::Reference {
                    backend: SimpleBackendReference::Backend(backend.clone()),
                    path: clone_text(path),
                },
            ),
            McpBackendHost::Host { host, port: Some(port), path: Some(path) } => Ok(
                ProcessedMcpBackendHost::Inline {
                    backend: Target { host: host.clone(), port: *port },
                    path: path.clone(),
                    tls: false,
                },
            ),
            McpBackendHost::Host { host, port: None, path: None } => {
                match parse_uri(host.as_str()) {
                    Ok(uri) => process_uri(uri),
                    Err(e) => Err(ConfigError::of(e)),
                }
            },
            McpBackendHost::Host { .. } => Err(
                ConfigError::new(
                    "if port or path is set, both must be set; otherwise, use only host",
                ),
            ),
        }
    }
}

} // verus!
