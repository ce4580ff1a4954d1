//! Why requests fail in the proxy.

use vstd::prelude::*;

use crate::ext_proc;
use crate::mcp;
use crate::text::{join2, Text};

verus! {

/// Why a request fails in the proxy.
#[derive(Debug)]
pub enum ProxyError {
    ExtProc(ext_proc::Error),
    MCP(mcp::Error),
    /// A message or an expression could not be processed. Holds what is said of it.
    Processing(String),
}

impl ProxyError {
    /// Whether the response that the error holds, if any, has a status.
    pub open spec fn wf(self) -> bool {
        self matches ProxyError::MCP(e) ==> e.wf()
    }

    /// What is said of the error. The beginnings are those under which the gateway as a whole reports
    /// its errors; no decision in this library rests on them.
    pub open spec fn text(self) -> Text {
        match self {
            ProxyError::ExtProc(e) => "ext_proc failed: "@ + e.text(),
            ProxyError::MCP(e) => "mcp: "@ + e.text(),
            ProxyError::Processing(m) => "processing failed: "@ + m@,
        }
    }

    /// What is said of the error.
    pub fn message(&self) -> (r: String)
        requires
            self.wf(),
        ensures
            r@ == self.text(),
    {
        match self {
            ProxyError::ExtProc(e) => join2("ext_proc failed: ", e.message().as_str()),
            ProxyError::MCP(e) => join2("mcp: ", e.message().as_str()),
            ProxyError::Processing(m) => join2("processing failed: ", m.as_str()),
        }
    }
}

impl From<ext_proc::Error> for ProxyError {
    fn from(value: ext_proc::Error) -> (r: Self) {
        ProxyError::ExtProc(value)
    }
}

impl vstd::std_specs::convert::FromSpecImpl<ext_proc::Error> for ProxyError {
    open spec fn obeys_from_spec() -> bool {
        true
    }

    open spec fn from_spec(value: ext_proc::Error) -> Self {
        ProxyError::ExtProc(value)
    }
}

impl From<mcp::Error> for ProxyError {
    fn from(value: mcp::Error) -> (r: Self) {
        ProxyError::MCP(value)
    }
}

impl vstd::std_specs::convert::FromSpecImpl<mcp::Error> for ProxyError {
    open spec fn obeys_from_spec() -> bool {
        true
    }

    open spec fn from_spec(value: mcp::Error) -> Self {
        ProxyError::MCP(value)
    }
}

} // verus!
