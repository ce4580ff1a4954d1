//! Requests and responses that pass through an external processor.
//!
//! The processor is asked over a stream of messages. This module builds the messages and decides
//! what each answer does to the request or response; the stream itself is kept by the caller, which
//! reports what was sent and received.

use std::sync::Arc;

use vstd::prelude::*;

use crate::json::Json;
use crate::keyed::StringMap;
use crate::proxy::ProxyError;
use crate::text::{join4, to_decimal, Text};
use crate::types::agent::{HeaderOrPseudo, SimpleBackendReference, SocketAddr};
use crate::types::frontend::field_expressions;
use crate::types::policy::{Expression, HasExpressions};
use crate::types::traffic::{share_policies, BackendTrafficPolicy};

pub mod laws;

verus! {

// ---------------------------------------------------------------------------------------------
// Configuration
// ---------------------------------------------------------------------------------------------

/// What happens when the processor cannot be reached or fails.
#[derive(Debug, Clone, Copy, PartialEq, Eq, Structural)]
pub enum FailureMode {
    /// The request fails.
    FailClosed,
    /// The request goes on unprocessed.
    FailOpen,
}

/// Controls how an endpoint-picker-selected destination is used.
#[derive(Debug, Clone, Copy, PartialEq, Eq, Structural)]
pub enum InferenceRoutingDestinationMode {
    /// Require the selected destination to match the gateway's local service endpoints.
    Validated,
    /// Trust the selected destination directly without local endpoint validation.
    Passthrough,
}

/// Routing by an endpoint picker.
#[derive(Debug)]
pub struct InferenceRouting {
    pub target: Arc<SimpleBackendReference>,
    pub destination_mode: InferenceRoutingDestinationMode,
    pub failure_mode: FailureMode,
}

impl InferenceRouting {
    /// Inference routing as a configuration sets it. A picker that fails always fails the request.
    pub fn from_config(
        endpoint_picker: Arc<SimpleBackendReference>,
        destination_mode: InferenceRoutingDestinationMode,
    ) -> (r: Self)
        ensures
            r == (InferenceRouting {
                target: endpoint_picker,
                destination_mode,
                failure_mode: FailureMode::FailClosed,
            }),
    {
        InferenceRouting {
            target: endpoint_picker,
            destination_mode,
            failure_mode: FailureMode::FailClosed,
        }
    }

    /// The router that asks the endpoint picker.
    pub open spec fn routes(self, r: InferencePoolRouter) -> bool {
        &&& r.destination_mode == self.destination_mode
        &&& match r.ext_proc {
            Some(p) => p.fresh(self.target, Seq::empty(), self.failure_mode)
                && p.metadata_context is None && p.req_attributes is None && p.resp_attributes is None,
            None => false,
        }
    }

    /// The router that asks the endpoint picker.
    pub fn build(&self) -> (r: InferencePoolRouter)
        ensures
            self.routes(r),
    {
        let p = ExtProcInstance::new(
            Vec::new(),
            self.target.clone(),
            self.failure_mode,
            None,
            None,
            None,
        );
        assert(p.channel.policies@ =~= Seq::<BackendTrafficPolicy>::empty());
        InferencePoolRouter { ext_proc: Some(p), destination_mode: self.destination_mode }
    }
}

/// Named expressions, in order.
pub type NamedExpressions = Vec<(String, Arc<Expression>)>;

/// Named expressions by namespace.
pub type MetadataExpressions = Vec<(String, NamedExpressions)>;

/// Processing by an external service.
#[derive(Debug)]
pub struct ExtProc {
    /// The service.
    pub target: Arc<SimpleBackendReference>,
    /// Policies of the connection to the service.
    pub policies: Vec<BackendTrafficPolicy>,
    /// Behavior when the service is unavailable or returns an error.
    pub failure_mode: FailureMode,
    /// Metadata that is sent along.
    pub metadata_context: Option<Arc<MetadataExpressions>>,
    /// Attributes of the request that are sent along.
    pub request_attributes: Option<Arc<NamedExpressions>>,
    /// Attributes of the response that are sent along.
    pub response_attributes: Option<Arc<NamedExpressions>>,
}

impl View for ExtProc {
    type V = ExtProc;

    open spec fn view(&self) -> ExtProc {
        *self
    }
}

/// The expressions of a list, if there is one.
pub open spec fn named_expressions(list: Option<Arc<NamedExpressions>>) -> Seq<Arc<Expression>> {
    match list {
        Some(l) => field_expressions(l@),
        None => Seq::empty(),
    }
}

/// The expressions of the namespaces before `n`.
pub open spec fn namespace_expressions(
    namespaces: Seq<(String, NamedExpressions)>,
    n: int,
) -> Seq<Arc<Expression>>
    decreases n,
{
    if n <= 0 {
        Seq::empty()
    } else {
        namespace_expressions(namespaces, n - 1) + field_expressions(namespaces[n - 1].1@)
    }
}

fn push_expressions(out: &mut Vec<Arc<Expression>>, list: &NamedExpressions)
    ensures
        final(out)@ == old(out)@ + field_expressions(list@),
{
    let ghost before = out@;
    let mut i: usize = 0;
    while i < list.len()
        invariant
            i <= list@.len(),
            out@ == before + field_expressions(list@.take(i as int)),
        decreases list@.len() - i,
    {
        out.push(list[i].1.clone());
        i = i + 1;
        assert(out@ =~= before + field_expressions(list@.take(i as int)));
    }
    assert(list@.take(i as int) =~= list@);
}

impl ExtProc {
    /// The expressions that are evaluated for the processor: those of the metadata, then those of
    /// the attributes of the request and of the response.
    pub open spec fn all_expressions(&self) -> Seq<Arc<Expression>> {
        (match self.metadata_context {
            Some(m) => namespace_expressions(m@, m@.len() as int),
            None => Seq::empty(),
        }) + named_expressions(self.request_attributes) + named_expressions(
            self.response_attributes,
        )
    }

    /// The expressions that are evaluated for the processor.
    pub fn expressions(&self) -> (r: Vec<Arc<Expression>>)
        ensures
            r@ == self.all_expressions(),
    {
        let mut out: Vec<Arc<Expression>> = Vec::new();
        match &self.metadata_context {
            Some(m) => {
                let mut i: usize = 0;
                while i < m.len()
                    invariant
                        i <= m@.len(),
                        out@ == namespace_expressions(m@, i as int),
                    decreases m@.len() - i,
                {
                    push_expressions(&mut out, &m[i].1);
                    i = i + 1;
                }
            },
            None => {},
        }
        match &self.request_attributes {
            Some(list) => push_expressions(&mut out, list),
            None => {},
        }
        match &self.response_attributes {
            Some(list) => push_expressions(&mut out, list),
            None => {},
        }
        assert(out@ =~= self.all_expressions());
        out
    }

    /// A processing of one request and its response.
    pub fn build(&self) -> (r: ExtProcRequest)
        ensures
            match r.ext_proc {
                Some(p) => p.fresh(self.target, self.policies@, self.failure_mode)
                    && p.metadata_context == self.metadata_context && p.req_attributes
                    == self.request_attributes && p.resp_attributes == self.response_attributes,
                None => false,
            },
    {
        ExtProcRequest {
            ext_proc: Some(
                ExtProcInstance::new(
                    share_policies(&self.policies),
                    self.target.clone(),
                    self.failure_mode,
                    crate::types::policy::share(&self.metadata_context),
                    crate::types::policy::share(&self.request_attributes),
                    crate::types::policy::share(&self.response_attributes),
                ),
            ),
        }
    }
}

impl HasExpressions for ExtProc {
    open spec fn expression_list(&self) -> Seq<Arc<Expression>> {
        self.all_expressions()
    }

    fn expressions(&self) -> (r: Vec<Arc<Expression>>) {
        ExtProc::expressions(self)
    }
}

// ---------------------------------------------------------------------------------------------
// Errors
// ---------------------------------------------------------------------------------------------

/// Why processing failed.
#[derive(Debug)]
pub enum Error {
    RequestSend,
    NoMoreResponses,
    ResponseDropped,
    BodyBuffer(String),
    MetadataConversion(String),
    InvalidHeaderName(String),
    InvalidHeaderValue(String),
}

impl Error {
    /// What is said of the error.
    pub open spec fn text(self) -> Text {
        match self {
            Error::RequestSend => "failed to send request"@,
            Error::NoMoreResponses => "no more response messages"@,
            Error::ResponseDropped => "no more responses"@,
            Error::BodyBuffer(m) => "failed to buffer body: "@ + m@,
            Error::MetadataConversion(m) => "failed to convert metadata value: "@ + m@,
            Error::InvalidHeaderName(m) => m@,
            Error::InvalidHeaderValue(m) => m@,
        }
    }

    /// What is said of the error.
    pub fn message(&self) -> (r: String)
        ensures
            r@ == self.text(),
    {
        match self {
            Error::RequestSend => "failed to send request".to_owned(),
            Error::NoMoreResponses => "no more response messages".to_owned(),
            Error::ResponseDropped => "no more responses".to_owned(),
            Error::BodyBuffer(m) => crate::text::join2("failed to buffer body: ", m.as_str()),
            Error::MetadataConversion(m) => crate::text::join2(
                "failed to convert metadata value: ",
                m.as_str(),
            ),
            Error::InvalidHeaderName(m) => m.clone(),
            Error::InvalidHeaderValue(m) => m.clone(),
        }
    }
}

// ---------------------------------------------------------------------------------------------
// Messages
// ---------------------------------------------------------------------------------------------

/// A header as the processor is told of it: pseudo headers as text, others as bytes.
#[derive(Debug, PartialEq, Eq)]
pub struct HeaderValue {
    pub key: String,
    pub value: String,
    pub raw_value: Vec<u8>,
}

/// What a [`HeaderValue`] holds.
#[verifier::ext_equal]
pub struct HeaderValueView {
    pub key: Text,
    pub value: Text,
    pub raw_value: Seq<u8>,
}

impl View for HeaderValue {
    type V = HeaderValueView;

    open spec fn view(&self) -> HeaderValueView {
        HeaderValueView {
            key: self.key@,
            value: self.value@,
            raw_value: self.raw_value@,
        }
    }
}

/// The values of named expressions.
pub type Fields = Vec<(String, Arc<Json>)>;

/// The values of named expressions by namespace.
#[derive(Debug)]
pub struct Metadata {
    pub filter_metadata: Vec<(String, Fields)>,
}

/// A part of a body: data, or the trailers behind it.
#[derive(Debug)]
pub enum Frame {
    Data(Vec<u8>),
    Trailers(Vec<(String, Vec<u8>)>),
}

/// Whether a message is about a request or about its response.
#[derive(Debug, Clone, Copy, PartialEq, Eq, Structural)]
pub enum Side {
    Request,
    Response,
}

/// What the processor is told of.
#[derive(Debug)]
pub enum Told {
    Headers { headers: Vec<HeaderValue>, end_of_stream: bool },
    Body { body: Vec<u8>, end_of_stream: bool },
    Trailers { trailers: Vec<HeaderValue> },
}

/// What a [`Told`] holds.
#[verifier::ext_equal]
#[allow(inconsistent_fields)]
pub enum ToldView {
    Headers { headers: Seq<HeaderValueView>, end_of_stream: bool },
    Body { body: Seq<u8>, end_of_stream: bool },
    Trailers { trailers: Seq<HeaderValueView> },
}

impl View for Told {
    type V = ToldView;

    open spec fn view(&self) -> ToldView {
        match *self {
            Told::Headers { headers, end_of_stream } => ToldView::Headers {
                headers: crate::text::views(headers@),
                end_of_stream,
            },
            Told::Body { body, end_of_stream } => ToldView::Body { body: body@, end_of_stream },
            Told::Trailers { trailers } => ToldView::Trailers {
                trailers: crate::text::views(trailers@),
            },
        }
    }
}

/// A message to the processor.
#[derive(Debug)]
pub struct ProcessingRequest {
    pub side: Side,
    pub request: Told,
    pub metadata_context: Option<Arc<Metadata>>,
    pub attributes: Vec<(String, Fields)>,
}

/// The namespace of the attributes that a message carries.
pub const EXTPROC_ATTRIBUTES_NAMESPACE: &'static str = "envoy.filters.http.ext_proc";

/// What an expression came to.
#[derive(Debug)]
pub enum Evaluation {
    /// It could not be evaluated. Holds what is said of it.
    Failed(String),
    /// Its value has no JSON form. Holds what is said of it.
    NotJson(String),
    Value(Arc<Json>),
}

/// The value of an expression, as JSON.
pub fn eval_expression(evaluation: &Evaluation) -> (r: Result<Arc<Json>, ProxyError>)
    ensures
        match *evaluation {
            Evaluation::Value(v) => r == Ok::<Arc<Json>, ProxyError>(v),
            Evaluation::Failed(m) | Evaluation::NotJson(m) => r == Err::<Arc<Json>, ProxyError>(
                ProxyError::Processing(m),
            ),
        },
{
    match evaluation {
        Evaluation::Value(v) => Ok(v.clone()),
        Evaluation::Failed(m) | Evaluation::NotJson(m) => Err(ProxyError::Processing(m.clone())),
    }
}

/// The names and values of the expressions that have one, in order.
pub open spec fn values_of(
    expressions: Seq<(String, Arc<Expression>)>,
    outcomes: Seq<Evaluation>,
) -> Seq<(String, Arc<Json>)>
    decreases outcomes.len(),
{
    if outcomes.len() == 0 {
        Seq::empty()
    } else {
        let before = values_of(expressions, outcomes.drop_last());
        match outcomes.last() {
            Evaluation::Value(v) => before.push((expressions[outcomes.len() - 1].0, v)),
            _ => before,
        }
    }
}

/// The values of named expressions, from what they came to. One that has none is left out.
pub fn eval_to_struct(expressions: &NamedExpressions, outcomes: &Vec<Evaluation>) -> (r: Fields)
    requires
        outcomes@.len() == expressions@.len(),
    ensures
        r@ == values_of(expressions@, outcomes@),
{
    let mut out: Fields = Vec::new();
    let mut i: usize = 0;
    while i < outcomes.len()
        invariant
            i <= outcomes@.len(),
            outcomes@.len() == expressions@.len(),
            out@ == values_of(expressions@, outcomes@.take(i as int)),
        decreases outcomes@.len() - i,
    {
        proof {
            assert(outcomes@.take(i as int + 1).drop_last() =~= outcomes@.take(i as int));
        }
        match eval_expression(&outcomes[i]) {
            Ok(v) => {
                out.push((expressions[i].0.clone(), v));
            },
            Err(_) => {},
        }
        i = i + 1;
    }
    assert(outcomes@.take(i as int) =~= outcomes@);
    out
}

/// Whether there is an outcome for each expression of the list, if there is a list.
pub open spec fn evaluates(
    expressions: Option<Arc<NamedExpressions>>,
    outcomes: Seq<Evaluation>,
) -> bool {
    expressions matches Some(list) ==> outcomes.len() == list@.len()
}

/// Whether there is an outcome for each expression of each namespace.
pub open spec fn evaluates_each(
    namespaces: Seq<(String, NamedExpressions)>,
    outcomes: Seq<Vec<Evaluation>>,
) -> bool {
    &&& outcomes.len() == namespaces.len()
    &&& forall|i: int|
        0 <= i < outcomes.len() ==> (#[trigger] outcomes[i])@.len() == namespaces[i].1@.len()
}

/// Whether there is an outcome for each expression of the metadata, if there is any.
pub open spec fn evaluates_metadata(
    context: Option<Arc<MetadataExpressions>>,
    outcomes: Seq<Vec<Evaluation>>,
) -> bool {
    context matches Some(m) ==> evaluates_each(m@, outcomes)
}

/// The namespaces of evaluated metadata with their values.
pub open spec fn metadata_view(metadata: Metadata) -> Seq<(String, Seq<(String, Arc<Json>)>)> {
    metadata.filter_metadata@.map_values(|n: (String, Fields)| (n.0, n.1@))
}

/// The namespaces with the values of their expressions.
pub open spec fn namespace_values(
    namespaces: Seq<(String, NamedExpressions)>,
    outcomes: Seq<Vec<Evaluation>>,
) -> Seq<(String, Seq<(String, Arc<Json>)>)> {
    Seq::new(
        namespaces.len(),
        |i: int| (namespaces[i].0, values_of(namespaces[i].1@, outcomes[i]@)),
    )
}

/// Whether metadata is what its expressions came to, if any is asked for.
pub open spec fn metadata_of(
    metadata: Option<Arc<Metadata>>,
    context: Option<Arc<MetadataExpressions>>,
    outcomes: Seq<Vec<Evaluation>>,
) -> bool {
    match context {
        Some(m) => metadata is Some && metadata_view(*metadata->0) == namespace_values(
            m@,
            outcomes,
        ),
        None => metadata is None,
    }
}

/// The metadata that is sent along, from what its expressions came to.
pub fn evaluated_metadata(
    context: &Option<Arc<MetadataExpressions>>,
    outcomes: &Vec<Vec<Evaluation>>,
) -> (r: Option<Arc<Metadata>>)
    requires
        evaluates_metadata(*context, outcomes@),
    ensures
        metadata_of(r, *context, outcomes@),
{
    let namespaces = match context {
        Some(m) => m,
        None => {
            return None;
        },
    };
    let mut out: Vec<(String, Fields)> = Vec::new();
    let mut i: usize = 0;
    while i < namespaces.len()
        invariant
            i <= namespaces@.len(),
            evaluates_each(namespaces@, outcomes@),
            out@.len() == i,
            forall|j: int|
                0 <= j < i ==> (#[trigger] out@[j]).0 == namespaces@[j].0 && out@[j].1@
                    == values_of(namespaces@[j].1@, outcomes@[j]@),
        decreases namespaces@.len() - i,
    {
        out.push((namespaces[i].0.clone(), eval_to_struct(&namespaces[i].1, &outcomes[i])));
        i = i + 1;
    }
    let r = Metadata { filter_metadata: out };
    assert(metadata_view(r) =~= namespace_values(namespaces@, outcomes@));
    Some(Arc::new(r))
}

/// Whether attributes are what their expressions came to, in the namespace of the processor.
pub open spec fn attributes_of(
    attributes: Seq<(String, Fields)>,
    expressions: Option<Arc<NamedExpressions>>,
    outcomes: Seq<Evaluation>,
) -> bool {
    match expressions {
        Some(list) => attributes.len() == 1 && attributes[0].0@ == EXTPROC_ATTRIBUTES_NAMESPACE@
            && attributes[0].1@ == values_of(list@, outcomes),
        None => attributes.len() == 0,
    }
}

/// The attributes that are sent along with the first message, from what their expressions came to.
pub fn evaluated_attributes(
    expressions: &Option<Arc<NamedExpressions>>,
    outcomes: &Vec<Evaluation>,
) -> (r: Vec<(String, Fields)>)
    requires
        evaluates(*expressions, outcomes@),
    ensures
        attributes_of(r@, *expressions, outcomes@),
{
    match expressions {
        Some(list) => vec![
            (EXTPROC_ATTRIBUTES_NAMESPACE.to_owned(), eval_to_struct(list, outcomes)),
        ],
        None => Vec::new(),
    }
}

/// The metadata that tells an endpoint picker which endpoint served a request.
pub open spec fn served_by(metadata: Metadata, destination: Text) -> bool {
    &&& metadata.filter_metadata@.len() == 1
    &&& metadata.filter_metadata@[0].0@ == "envoy.lb"@
    &&& metadata.filter_metadata@[0].1@.len() == 1
    &&& metadata.filter_metadata@[0].1@[0].0@ == "x-gateway-destination-endpoint-served"@
    &&& match *metadata.filter_metadata@[0].1@[0].1 {
        Json::Text(t) => t@ == destination,
        _ => false,
    }
}

/// The metadata that is sent along with a response: what the configuration asks for, from what its
/// expressions came to. Where it asks for none, the endpoint that served the request, if known.
pub fn response_metadata(
    context: &Option<Arc<MetadataExpressions>>,
    outcomes: &Vec<Vec<Evaluation>>,
    destination: Option<String>,
) -> (r: Option<Arc<Metadata>>)
    requires
        evaluates_metadata(*context, outcomes@),
    ensures
        match (*context, destination) {
            (None, Some(d)) => r is Some && served_by(*r->0, d@),
            _ => metadata_of(r, *context, outcomes@),
        },
{
    match (context, destination) {
        (None, Some(d)) => {
            let fields: Fields = vec![
                ("x-gateway-destination-endpoint-served".to_owned(), Arc::new(Json::Text(d))),
            ];
            Some(Arc::new(Metadata { filter_metadata: vec![("envoy.lb".to_owned(), fields)] }))
        },
        _ => evaluated_metadata(context, outcomes),
    }
}

// ---------------------------------------------------------------------------------------------
// Headers
// ---------------------------------------------------------------------------------------------

/// The name under which the processor is told of a pseudo header.
pub open spec fn pseudo_name(name: HeaderOrPseudo) -> Text {
    match name {
        HeaderOrPseudo::Header(n) => n@,
        HeaderOrPseudo::Method => ":method"@,
        HeaderOrPseudo::Scheme => ":scheme"@,
        HeaderOrPseudo::Authority => ":authority"@,
        HeaderOrPseudo::Path => ":path"@,
        HeaderOrPseudo::Status => ":status"@,
    }
}

fn pseudo_text(name: &HeaderOrPseudo) -> (r: String)
    ensures
        r@ == pseudo_name(*name),
{
    match name {
        HeaderOrPseudo::Header(n) => n.clone(),
        HeaderOrPseudo::Method => ":method".to_owned(),
        HeaderOrPseudo::Scheme => ":scheme".to_owned(),
        HeaderOrPseudo::Authority => ":authority".to_owned(),
        HeaderOrPseudo::Path => ":path".to_owned(),
        HeaderOrPseudo::Status => ":status".to_owned(),
    }
}

/// Headers as bytes.
pub open spec fn raw_headers(headers: Seq<(String, Vec<u8>)>) -> Seq<HeaderValueView> {
    headers.map_values(
        |h: (String, Vec<u8>)| HeaderValueView { key: h.0@, value: Seq::empty(), raw_value: h.1@ },
    )
}

/// Headers as text.
pub open spec fn text_headers(headers: Seq<(Text, Text)>) -> Seq<HeaderValueView> {
    headers.map_values(
        |h: (Text, Text)| HeaderValueView { key: h.0, value: h.1, raw_value: Seq::empty() },
    )
}

/// The headers as bytes, and then the additional ones as text.
pub fn to_header_map_extra(
    headers: Vec<(String, Vec<u8>)>,
    additional_headers: Vec<(String, String)>,
) -> (r: Vec<HeaderValue>)
    ensures
        crate::text::views(r@) == raw_headers(headers@) + text_headers(
            crate::types::policy::pair_texts(additional_headers@),
        ),
{
    let ghost all = headers@;
    let ghost extra = additional_headers@;
    let mut out: Vec<HeaderValue> = Vec::new();
    assert(crate::text::views(out@) =~= raw_headers(all.take(0)));
    for h in it: headers.into_iter()
        invariant
            it.seq() == all,
            crate::text::views(out@) == raw_headers(all.take(it.index() as int)),
    {
        let ghost n = it.index() as int;
        let ghost held = out@;
        let (key, raw_value) = h;
        out.push(HeaderValue { key, value: String::new(), raw_value });
        proof {
            let v = HeaderValueView { key: key@, value: Seq::empty(), raw_value: raw_value@ };
            assert(out@.last()@ =~= v);
            assert(crate::text::views(out@) =~= crate::text::views(held).push(v));
            assert(raw_headers(all.take(n + 1)) =~= raw_headers(all.take(n)).push(v));
        }
    }
    assert(all.take(all.len() as int) =~= all);
    let ghost pairs = crate::types::policy::pair_texts(extra);
    assert(crate::text::views(out@) =~= raw_headers(all) + text_headers(pairs.take(0)));
    for h in it: additional_headers.into_iter()
        invariant
            it.seq() == extra,
            pairs == crate::types::policy::pair_texts(extra),
            crate::text::views(out@) == raw_headers(all) + text_headers(
                pairs.take(it.index() as int),
            ),
    {
        let ghost n = it.index() as int;
        let ghost held = out@;
        let (key, value) = h;
        out.push(HeaderValue { key, value, raw_value: Vec::new() });
        proof {
            let v = HeaderValueView { key: key@, value: value@, raw_value: Seq::empty() };
            assert(out@.last()@ =~= v);
            assert(crate::text::views(out@) =~= crate::text::views(held).push(v));
            assert(text_headers(pairs.take(n + 1)) =~= text_headers(pairs.take(n)).push(v));
            assert(crate::text::views(out@) =~= raw_headers(all) + text_headers(
                pairs.take(n + 1),
            ));
        }
    }
    assert(pairs.take(extra.len() as int) =~= pairs);
    out
}

/// Pseudo headers with their names as text.
pub open spec fn pseudo_pairs(pseudo: Seq<(HeaderOrPseudo, String)>) -> Seq<(Text, Text)> {
    pseudo.map_values(|p: (HeaderOrPseudo, String)| (pseudo_name(p.0), p.1@))
}

/// Whether the pseudo headers tell the scheme.
pub open spec fn has_scheme(pseudo: Seq<(HeaderOrPseudo, String)>) -> bool {
    exists|i: int| 0 <= i < pseudo.len() && (#[trigger] pseudo[i]).0 is Scheme
}

/// What the processor is told of the headers of a request: the headers, then the pseudo headers.
/// Where the request does not tell its scheme, it is `http`.
pub open spec fn request_headers_of(
    headers: Seq<(String, Vec<u8>)>,
    pseudo: Seq<(HeaderOrPseudo, String)>,
) -> Seq<HeaderValueView> {
    raw_headers(headers) + text_headers(
        if has_scheme(pseudo) {
            pseudo_pairs(pseudo)
        } else {
            pseudo_pairs(pseudo).push((":scheme"@, "http"@))
        },
    )
}

/// What the processor is told of the headers of a request.
pub fn req_to_header_map(
    headers: Vec<(String, Vec<u8>)>,
    pseudo: Vec<(HeaderOrPseudo, String)>,
) -> (r: Vec<HeaderValue>)
    ensures
        crate::text::views(r@) == request_headers_of(headers@, pseudo@),
{
    let ghost all = pseudo@;
    let mut scheme = false;
    let mut pairs: Vec<(String, String)> = Vec::new();
    assert(crate::types::policy::pair_texts(pairs@) =~= pseudo_pairs(all.take(0)));
    for p in it: pseudo.into_iter()
        invariant
            it.seq() == all,
            scheme == has_scheme(all.take(it.index() as int)),
            crate::types::policy::pair_texts(pairs@) == pseudo_pairs(all.take(it.index() as int)),
    {
        let ghost n = it.index() as int;
        let ghost held = pairs@;
        let ghost was = scheme;
        let (name, value) = p;
        match name {
            HeaderOrPseudo::Scheme => {
                scheme = true;
            },
            _ => {},
        }
        proof {
            let seen = all.take(n);
            let next = all.take(n + 1);
            assert(next[n] == p);
            if has_scheme(seen) {
                let i = choose|i: int| 0 <= i < seen.len() && (#[trigger] seen[i]).0 is Scheme;
                assert(next[i].0 is Scheme);
            }
            if has_scheme(next) {
                let i = choose|i: int| 0 <= i < next.len() && (#[trigger] next[i]).0 is Scheme;
                if i < n {
                    assert(seen[i].0 is Scheme);
                }
            }
        }
        pairs.push((pseudo_text(&name), value));
        proof {
            assert(crate::types::policy::pair_texts(pairs@)
                =~= crate::types::policy::pair_texts(held).push((pseudo_name(name), value@)));
            assert(pseudo_pairs(all.take(n + 1)) =~= pseudo_pairs(all.take(n)).push(
                (pseudo_name(name), value@),
            ));
        }
    }
    assert(all.take(all.len() as int) =~= all);
    if !scheme {
        let ghost held = pairs@;
        pairs.push((":scheme".to_owned(), "http".to_owned()));
        assert(crate::types::policy::pair_texts(pairs@) =~= crate::types::policy::pair_texts(
            held,
        ).push((":scheme"@, "http"@)));
    }
    to_header_map_extra(headers, pairs)
}

/// What the processor is told of the headers of a response: the headers, then the status.
pub fn resp_to_header_map(headers: Vec<(String, Vec<u8>)>, status: u16) -> (r: Vec<HeaderValue>)
    ensures
        crate::text::views(r@) == raw_headers(headers@) + text_headers(
            seq![(":status"@, crate::text::decimal(status as nat))],
        ),
{
    let pairs: Vec<(String, String)> = vec![(":status".to_owned(), to_decimal(status as u64))];
    assert(crate::types::policy::pair_texts(pairs@) =~= seq![
        (":status"@, crate::text::decimal(status as nat)),
    ]);
    to_header_map_extra(headers, pairs)
}

/// What the processor is told of trailers.
pub fn to_header_map(headers: Vec<(String, Vec<u8>)>) -> (r: Vec<HeaderValue>)
    ensures
        crate::text::views(r@) == raw_headers(headers@),
{
    let none: Vec<(String, String)> = Vec::new();
    assert(text_headers(crate::types::policy::pair_texts(none@)) =~= Seq::<
        HeaderValueView,
    >::empty());
    assert(raw_headers(headers@) + Seq::<HeaderValueView>::empty() =~= raw_headers(headers@));
    to_header_map_extra(headers, none)
}

// ---------------------------------------------------------------------------------------------
// Answers
// ---------------------------------------------------------------------------------------------

/// A header that the processor sets, with how it is to be set.
#[derive(Debug)]
pub struct HeaderValueOption {
    pub header: HeaderValue,
    pub append_action: i32,
}

/// Changes of headers that the processor asks for.
#[derive(Debug)]
pub struct HeaderMutation {
    pub set_headers: Vec<Arc<HeaderValueOption>>,
    pub remove_headers: Vec<String>,
}

/// What the processor does to a body.
#[derive(Debug)]
pub enum Mutation {
    /// The next part of the new body.
    StreamedResponse { body: Vec<u8>, end_of_stream: bool },
    /// The whole new body. Not valid in a stream.
    Body(Vec<u8>),
    /// No body. Not valid in a stream.
    ClearBody(bool),
}

/// What the processor does to headers and body.
#[derive(Debug)]
pub struct CommonResponse {
    pub header_mutation: Option<HeaderMutation>,
    /// Absent, or without a mutation in it, or with one.
    pub body_mutation: Option<Option<Mutation>>,
}

/// A reply that the processor gives in place of the backend.
#[derive(Debug)]
pub struct ImmediateResponse {
    pub status: Option<i32>,
    pub headers: Option<HeaderMutation>,
    pub body: String,
}

/// What an answer of the processor is about.
#[derive(Debug)]
pub enum Response {
    RequestHeaders(Option<CommonResponse>),
    RequestBody(Option<CommonResponse>),
    RequestTrailers,
    ResponseHeaders(Option<CommonResponse>),
    ResponseBody(Option<CommonResponse>),
    ResponseTrailers,
    ImmediateResponse(Arc<ImmediateResponse>),
}

/// Fields of metadata with what converting them to JSON came to.
pub type ConvertedFields = Vec<(String, Result<Arc<Json>, String>)>;

/// An answer of the processor.
#[derive(Debug)]
pub struct ProcessingResponse {
    pub response: Option<Response>,
    pub dynamic_metadata: Option<ConvertedFields>,
}

/// Who waits for an answer.
#[derive(Debug, Clone, Copy, PartialEq, Eq, Structural)]
pub enum Recipient {
    Request,
    Response,
    /// It is not known who is going to handle it.
    Both,
    Nobody,
}

/// Who waits for an answer.
pub open spec fn recipient_of(response: Option<Response>) -> Recipient {
    match response {
        Some(Response::RequestHeaders(_)) => Recipient::Request,
        Some(Response::RequestBody(_)) => Recipient::Request,
        Some(Response::RequestTrailers) => Recipient::Request,
        Some(Response::ResponseHeaders(_)) => Recipient::Response,
        Some(Response::ResponseBody(_)) => Recipient::Response,
        Some(Response::ResponseTrailers) => Recipient::Response,
        Some(Response::ImmediateResponse(_)) => Recipient::Both,
        None => Recipient::Nobody,
    }
}

impl ProcessingResponse {
    /// Who waits for the answer.
    pub fn recipient(&self) -> (r: Recipient)
        ensures
            r == recipient_of(self.response),
    {
        match &self.response {
            Some(Response::RequestHeaders(_)) => Recipient::Request,
            Some(Response::RequestBody(_)) => Recipient::Request,
            Some(Response::RequestTrailers) => Recipient::Request,
            Some(Response::ResponseHeaders(_)) => Recipient::Response,
            Some(Response::ResponseBody(_)) => Recipient::Response,
            Some(Response::ResponseTrailers) => Recipient::Response,
            Some(Response::ImmediateResponse(_)) => Recipient::Both,
            None => Recipient::Nobody,
        }
    }
}

/// A change of headers.
#[derive(Debug)]
pub enum HeaderEdit {
    Remove(String),
    Put(Arc<HeaderValueOption>),
    /// Drops the length of the body, which the processor may have changed.
    DropContentLength,
}

/// The changes of headers that the processor asks for: what is removed goes first.
pub open spec fn header_edits(h: Option<HeaderMutation>) -> Seq<HeaderEdit> {
    match h {
        Some(hm) => hm.remove_headers@.map_values(|n: String| HeaderEdit::Remove(n))
            + hm.set_headers@.map_values(|s: Arc<HeaderValueOption>| HeaderEdit::Put(s)),
        None => Seq::empty(),
    }
}

/// A header that is both removed and set is there in the end: every removal goes before every
/// setting.
pub proof fn removals_go_first(h: HeaderMutation, i: int, j: int)
    requires
        0 <= i < header_edits(Some(h)).len(),
        0 <= j < header_edits(Some(h)).len(),
        header_edits(Some(h))[i] is Remove,
        header_edits(Some(h))[j] is Put,
    ensures
        i < j,
{
    let edits = header_edits(Some(h));
    let n = h.remove_headers@.len();
    if i >= n {
        assert(edits[i] == HeaderEdit::Put(h.set_headers@[i - n]));
    }
    if j < n {
        assert(edits[j] == HeaderEdit::Remove(h.remove_headers@[j]));
    }
}

/// The changes of headers that the processor asks for.
pub fn header_mutations(h: &Option<HeaderMutation>) -> (r: Vec<HeaderEdit>)
    ensures
        r@ == header_edits(*h),
{
    let mut out: Vec<HeaderEdit> = Vec::new();
    match h {
        Some(hm) => {
            let ghost removes = hm.remove_headers@.map_values(|n: String| HeaderEdit::Remove(n));
            let ghost sets = hm.set_headers@.map_values(
                |s: Arc<HeaderValueOption>| HeaderEdit::Put(s),
            );
            let mut i: usize = 0;
            while i < hm.remove_headers.len()
                invariant
                    i <= hm.remove_headers@.len(),
                    removes == hm.remove_headers@.map_values(|n: String| HeaderEdit::Remove(n)),
                    out@ == removes.take(i as int),
                decreases hm.remove_headers@.len() - i,
            {
                out.push(HeaderEdit::Remove(hm.remove_headers[i].clone()));
                i = i + 1;
                assert(out@ =~= removes.take(i as int));
            }
            assert(out@ =~= removes + sets.take(0));
            let mut j: usize = 0;
            while j < hm.set_headers.len()
                invariant
                    j <= hm.set_headers@.len(),
                    sets == hm.set_headers@.map_values(
                        |s: Arc<HeaderValueOption>| HeaderEdit::Put(s),
                    ),
                    out@ == removes + sets.take(j as int),
                decreases hm.set_headers@.len() - j,
            {
                out.push(HeaderEdit::Put(hm.set_headers[j].clone()));
                j = j + 1;
                assert(out@ =~= removes + sets.take(j as int));
            }
            assert(sets.take(j as int) =~= sets);
        },
        None => {},
    }
    out
}

/// A response that is given at once, with the changes of its headers.
#[derive(Debug)]
pub struct DirectReply {
    pub status: u16,
    pub body: String,
    pub edits: Vec<HeaderEdit>,
}

/// What a policy decided: a response to give at once, if any, and headers for the response.
#[derive(Debug)]
pub struct PolicyResponse {
    pub direct_response: Option<DirectReply>,
    pub response_headers: Option<Vec<HeaderValue>>,
}

impl PolicyResponse {
    /// Nothing was decided.
    pub open spec fn is_default(self) -> bool {
        self.direct_response is None && self.response_headers is None
    }

    /// Nothing was decided.
    pub fn default() -> (r: Self)
        ensures
            r.is_default(),
    {
        PolicyResponse { direct_response: None, response_headers: None }
    }
}

/// The status of an immediate reply; 200 if it names none.
pub open spec fn reply_status(status: Option<i32>) -> u16 {
    match status {
        Some(code) => code as u16,
        None => 200,
    }
}

/// Whether the status of an immediate reply can be that of a response.
pub open spec fn replies(response: Option<Response>) -> bool {
    match response {
        Some(Response::ImmediateResponse(ir)) => 100 <= reply_status(ir.status) <= 999,
        _ => true,
    }
}

/// Whether a reply is the one that the processor gives.
pub open spec fn reply_of(reply: PolicyResponse, ir: ImmediateResponse) -> bool {
    &&& reply.response_headers is None
    &&& match reply.direct_response {
        Some(d) => d.status == reply_status(ir.status) && d.body == ir.body && d.edits@
            == header_edits(ir.headers),
        None => false,
    }
}

/// The reply that the processor gives in place of the backend, if it does.
pub fn to_immediate_response(rp: &ProcessingResponse) -> (r: Option<PolicyResponse>)
    requires
        replies(rp.response),
    ensures
        match rp.response {
            Some(Response::ImmediateResponse(ir)) => r is Some && reply_of(r->0, *ir),
            _ => r is None,
        },
{
    match &rp.response {
        Some(Response::ImmediateResponse(ir)) => {
            let status: u16 = match ir.status {
                Some(code) => #[verifier::truncate] (code as u16),
                None => 200,
            };
            Some(
                PolicyResponse {
                    direct_response: Some(
                        DirectReply {
                            status,
                            body: ir.body.clone(),
                            edits: header_mutations(&ir.headers),
                        },
                    ),
                    response_headers: None,
                },
            )
        },
        _ => None,
    }
}

/// What an answer does to the request or response that it is about.
#[derive(Debug)]
pub struct Handled {
    /// Metadata to attach.
    pub metadata: Option<ConvertedFields>,
    /// Changes of headers.
    pub edits: Vec<HeaderEdit>,
    /// The next part of the new body.
    pub chunk: Option<Vec<u8>>,
    /// The headers are settled.
    pub headers_done: bool,
    /// The body is complete.
    pub eos: bool,
}

/// What a [`Handled`] holds.
#[verifier::ext_equal]
pub struct HandledView {
    pub metadata: Option<ConvertedFields>,
    pub edits: Seq<HeaderEdit>,
    pub chunk: Option<Vec<u8>>,
    pub headers_done: bool,
    pub eos: bool,
}

impl View for Handled {
    type V = HandledView;

    open spec fn view(&self) -> HandledView {
        HandledView {
            metadata: self.metadata,
            edits: self.edits@,
            chunk: self.chunk,
            headers_done: self.headers_done,
            eos: self.eos,
        }
    }
}

/// An answer that changes neither headers nor body.
pub open spec fn nothing_handled(
    metadata: Option<ConvertedFields>,
    headers_done: bool,
    eos: bool,
) -> HandledView {
    HandledView { metadata, edits: Seq::empty(), chunk: None, headers_done, eos }
}

/// What changes of headers and body come to. Headers can be changed only while they are `open`. A
/// part of the body goes on; if the processor leaves the body alone and there is none, the body is
/// complete. Any other change of the body is passed over.
pub open spec fn common_handled(
    had_body: bool,
    open: bool,
    metadata: Option<ConvertedFields>,
    cr: CommonResponse,
    headers_done: bool,
) -> HandledView {
    let edits = if open {
        header_edits(cr.header_mutation)
    } else {
        Seq::empty()
    };
    match cr.body_mutation {
        Some(Some(Mutation::StreamedResponse { body, end_of_stream })) => HandledView {
            metadata,
            edits,
            chunk: Some(body),
            headers_done,
            eos: end_of_stream,
        },
        Some(Some(_)) => HandledView { metadata, edits, chunk: None, headers_done, eos: false },
        _ => HandledView { metadata, edits, chunk: None, headers_done, eos: !had_body },
    }
}

/// What an answer does to a request. `open` tells whether the headers can still be changed, and
/// metadata attached.
pub open spec fn request_handled(
    had_body: bool,
    open: bool,
    presp: ProcessingResponse,
) -> HandledView {
    let metadata = if open {
        presp.dynamic_metadata
    } else {
        None
    };
    match presp.response {
        Some(Response::RequestHeaders(None)) => nothing_handled(metadata, true, !had_body),
        Some(Response::RequestHeaders(Some(cr))) => common_handled(
            had_body,
            open,
            metadata,
            cr,
            true,
        ),
        Some(Response::RequestBody(None)) => nothing_handled(metadata, false, true),
        Some(Response::RequestBody(Some(cr))) => common_handled(
            had_body,
            open,
            metadata,
            cr,
            false,
        ),
        Some(Response::ImmediateResponse(_)) => nothing_handled(metadata, true, true),
        _ => nothing_handled(metadata, false, false),
    }
}

/// What an answer does to a response. `open` tells whether the headers can still be changed.
pub open spec fn response_handled(
    had_body: bool,
    open: bool,
    presp: ProcessingResponse,
) -> HandledView {
    match presp.response {
        Some(Response::ResponseHeaders(None)) => nothing_handled(None, true, false),
        Some(Response::ResponseHeaders(Some(cr))) => common_handled(had_body, open, None, cr, true),
        Some(Response::ResponseBody(Some(cr))) => common_handled(had_body, open, None, cr, false),
        Some(Response::ResponseBody(None)) => nothing_handled(None, false, true),
        _ => nothing_handled(None, false, false),
    }
}

fn quiet(metadata: Option<ConvertedFields>, headers_done: bool, eos: bool) -> (r: Handled)
    ensures
        r@ == nothing_handled(metadata, headers_done, eos),
{
    let r = Handled { metadata, edits: Vec::new(), chunk: None, headers_done, eos };
    assert(r@ =~= nothing_handled(metadata, headers_done, eos));
    r
}

fn handle_common(
    had_body: bool,
    open: bool,
    metadata: Option<ConvertedFields>,
    cr: CommonResponse,
    headers_done: bool,
) -> (r: Handled)
    ensures
        r@ == common_handled(had_body, open, metadata, cr, headers_done),
{
    let ghost given = cr;
    let edits = if open {
        header_mutations(&cr.header_mutation)
    } else {
        Vec::new()
    };
    assert(!open ==> edits@ =~= Seq::<HeaderEdit>::empty());
    let r = match cr.body_mutation {
        Some(Some(Mutation::StreamedResponse { body, end_of_stream })) => Handled {
            metadata,
            edits,
            chunk: Some(body),
            headers_done,
            eos: end_of_stream,
        },
        Some(Some(_)) => Handled { metadata, edits, chunk: None, headers_done, eos: false },
        _ => Handled { metadata, edits, chunk: None, headers_done, eos: !had_body },
    };
    assert(r@ =~= common_handled(had_body, open, metadata, given, headers_done));
    r
}

/// What an answer does to a request.
pub fn handle_response_for_request_mutation(
    had_body: bool,
    open: bool,
    presp: ProcessingResponse,
) -> (r: Handled)
    ensures
        r@ == request_handled(had_body, open, presp),
{
    let metadata = if open {
        presp.dynamic_metadata
    } else {
        None
    };
    match presp.response {
        Some(Response::RequestHeaders(None)) => quiet(metadata, true, !had_body),
        Some(Response::RequestHeaders(Some(cr))) => handle_common(
            had_body,
            open,
            metadata,
            cr,
            true,
        ),
        Some(Response::RequestBody(None)) => quiet(metadata, false, true),
        Some(Response::RequestBody(Some(cr))) => handle_common(had_body, open, metadata, cr, false),
        Some(Response::ImmediateResponse(_)) => quiet(metadata, true, true),
        _ => quiet(metadata, false, false),
    }
}

/// What an answer does to a response.
pub fn handle_response_for_response_mutation(
    had_body: bool,
    open: bool,
    presp: ProcessingResponse,
) -> (r: Handled)
    ensures
        r@ == response_handled(had_body, open, presp),
{
    match presp.response {
        Some(Response::ResponseHeaders(None)) => quiet(None, true, false),
        Some(Response::ResponseHeaders(Some(cr))) => handle_common(had_body, open, None, cr, true),
        Some(Response::ResponseBody(Some(cr))) => handle_common(had_body, open, None, cr, false),
        Some(Response::ResponseBody(None)) => quiet(None, false, true),
        _ => quiet(None, false, false),
    }
}

// ---------------------------------------------------------------------------------------------
// Dynamic metadata
// ---------------------------------------------------------------------------------------------

/// Metadata that processors attached to a request.
#[derive(Debug)]
pub struct ExtProcDynamicMetadata {
    pub fields: StringMap<Arc<Json>>,
}

/// The fields with those of an answer put in, the later ones in place of the earlier. Nothing if
/// one of them has no JSON form.
pub open spec fn merged_fields(
    held: Map<Text, Arc<Json>>,
    fields: Seq<(String, Result<Arc<Json>, String>)>,
) -> Option<Map<Text, Arc<Json>>>
    decreases fields.len(),
{
    if fields.len() == 0 {
        Some(held)
    } else {
        match (merged_fields(held, fields.drop_last()), fields.last().1) {
            (Some(m), Ok(v)) => Some(m.insert(fields.last().0@, v)),
            _ => None,
        }
    }
}

/// The first of the fields that has no JSON form.
pub open spec fn first_bad_field(fields: Seq<(String, Result<Arc<Json>, String>)>) -> Option<int>
    decreases fields.len(),
{
    if fields.len() == 0 {
        None
    } else {
        match first_bad_field(fields.drop_last()) {
            Some(i) => Some(i),
            None => match fields.last().1 {
                Ok(_) => None,
                Err(_) => Some(fields.len() - 1),
            },
        }
    }
}

/// Fields merge unless one of them has no JSON form.
proof fn lemma_merged_fields(
    held: Map<Text, Arc<Json>>,
    fields: Seq<(String, Result<Arc<Json>, String>)>,
)
    ensures
        merged_fields(held, fields) is None <==> first_bad_field(fields) is Some,
    decreases fields.len(),
{
    if fields.len() > 0 {
        lemma_merged_fields(held, fields.drop_last());
    }
}

proof fn lemma_bad_field_stays(fields: Seq<(String, Result<Arc<Json>, String>)>, i: int, n: int)
    requires
        0 <= i < n <= fields.len(),
        first_bad_field(fields.take(i)) is None,
        fields[i].1 is Err,
    ensures
        first_bad_field(fields.take(n)) == Some(i),
    decreases n,
{
    let seen = fields.take(n);
    if n == i + 1 {
        assert(seen.drop_last() =~= fields.take(i));
        assert(seen.last() == fields[i]);
    } else {
        assert(seen.drop_last() =~= fields.take(n - 1));
        lemma_bad_field_stays(fields, i, n - 1);
    }
}

/// What is said of a field that has no JSON form.
pub open spec fn bad_field_text(key: Text, message: Text) -> Text {
    "failed to convert key '"@ + key + "': "@ + message
}

/// The fields that a request holds, none if it holds no metadata.
pub open spec fn held_fields(existing: Option<ExtProcDynamicMetadata>) -> Map<Text, Arc<Json>> {
    match existing {
        Some(m) => m.fields@,
        None => Map::empty(),
    }
}

/// Merges the metadata of an answer into that of the request. A request whose metadata is empty
/// holds none. If a field has no JSON form, the request is left without metadata.
pub fn extract_dynamic_metadata(
    existing: Option<ExtProcDynamicMetadata>,
    metadata: &ConvertedFields,
) -> (r: (Option<ExtProcDynamicMetadata>, Result<(), Error>))
    requires
        existing matches Some(m) ==> m.fields.wf(),
    ensures
        match r.1 {
            Ok(_) => merged_fields(held_fields(existing), metadata@) == Some(held_fields(r.0)) && (
            r.0 is Some <==> held_fields(r.0) != Map::<Text, Arc<Json>>::empty()),
            Err(e) => r.0 is None && match first_bad_field(metadata@) {
                Some(i) => e is MetadataConversion && e->MetadataConversion_0@ == bad_field_text(
                    metadata@[i].0@,
                    metadata@[i].1->Err_0@,
                ),
                None => false,
            },
        },
        r.0 matches Some(m) ==> m.fields.wf(),
{
    let ghost held = held_fields(existing);
    let mut fields = match existing {
        Some(m) => m.fields,
        None => StringMap::new(),
    };
    let mut i: usize = 0;
    while i < metadata.len()
        invariant
            fields.wf(),
            i <= metadata@.len(),
            merged_fields(held, metadata@.take(i as int)) == Some(fields@),
        decreases metadata@.len() - i,
    {
        proof {
            let next = metadata@.take(i as int + 1);
            assert(next.drop_last() =~= metadata@.take(i as int));
            assert(next.last() == metadata@[i as int]);
        }
        match &metadata[i].1 {
            Ok(v) => {
                fields.insert(metadata[i].0.clone(), v.clone());
            },
            Err(e) => {
                let message = join4(
                    "failed to convert key '",
                    metadata[i].0.as_str(),
                    "': ",
                    e.as_str(),
                );
                proof {
                    lemma_merged_fields(held, metadata@.take(i as int));
                    lemma_bad_field_stays(metadata@, i as int, metadata@.len() as int);
                    assert(metadata@.take(metadata@.len() as int) =~= metadata@);
                }
                return (None, Err(Error::MetadataConversion(message)));
            },
        }
        i = i + 1;
    }
    assert(metadata@.take(i as int) =~= metadata@);
    if fields.is_empty() {
        (None, Ok(()))
    } else {
        (Some(ExtProcDynamicMetadata { fields }), Ok(()))
    }
}

// ---------------------------------------------------------------------------------------------
// The exchange
// ---------------------------------------------------------------------------------------------

/// A connection to a processor, with the policies of the connection.
#[derive(Debug)]
pub struct GrpcReferenceChannel {
    pub target: Arc<SimpleBackendReference>,
    pub policies: Arc<Vec<BackendTrafficPolicy>>,
}

/// The processing of one request and its response.
#[derive(Debug)]
pub struct ExtProcInstance {
    pub failure_mode: FailureMode,
    /// The processor was skipped, and is not asked about the response either.
    pub skipped: bool,
    pub channel: GrpcReferenceChannel,
    pub metadata_context: Option<Arc<MetadataExpressions>>,
    pub req_attributes: Option<Arc<NamedExpressions>>,
    pub resp_attributes: Option<Arc<NamedExpressions>>,
    /// The answers about the request have a taker.
    pub request_started: bool,
    /// The answers about the response have a taker.
    pub response_started: bool,
}

/// What becomes of a request or response once its headers were sent, or could not be.
#[derive(Debug)]
pub enum Start {
    /// It goes on as it is.
    PassThrough,
    Fail(Error),
    /// Its answers are awaited. Its body, if it had one, is sent along. Its own body is replaced
    /// by the one that the processor streams back, and `edit` is applied.
    Await { had_body: bool, edit: HeaderEdit },
}

/// What an answer makes of a request or response.
#[derive(Debug)]
pub enum Step {
    Fail(Error),
    /// It goes on without the processor.
    PassThrough,
    /// It is answered at once.
    Reply(PolicyResponse),
    /// The answer is applied, and the next one is awaited.
    Wait(Handled),
    /// The answer is applied, and it goes on. If `more_body` is set, the rest of its new body
    /// is still to come.
    Proceed { handled: Handled, more_body: bool },
}

/// What an answer does to the side that it is about.
pub open spec fn handled_of(
    side: Side,
    had_body: bool,
    open: bool,
    presp: ProcessingResponse,
) -> HandledView {
    match side {
        Side::Request => request_handled(had_body, open, presp),
        Side::Response => response_handled(had_body, open, presp),
    }
}

/// An answer as it is applied when the headers are settled: the length of the body is dropped after
/// the changes that the processor asked for.
pub open spec fn settled(h: HandledView) -> HandledView {
    HandledView { edits: h.edits.push(HeaderEdit::DropContentLength), ..h }
}

/// Whether a step is the one that an answer calls for, or the end of the answers. Only a request
/// without a body can go on without the processor, and only where the failure mode allows it: once
/// parts of a body went to the processor, going on could corrupt it.
pub open spec fn step_of(
    side: Side,
    failure_mode: FailureMode,
    had_body: bool,
    presp: Option<ProcessingResponse>,
    step: Step,
) -> bool {
    match presp {
        None => if side == Side::Request && !had_body && failure_mode == FailureMode::FailOpen {
            step is PassThrough
        } else {
            step matches Step::Fail(e) && e is NoMoreResponses
        },
        Some(p) => match p.response {
            Some(Response::ImmediateResponse(ir)) => step matches Step::Reply(reply) && reply_of(
                reply,
                *ir,
            ),
            _ => {
                let h = handled_of(side, had_body, true, p);
                if h.headers_done {
                    step matches Step::Proceed { handled, more_body } && handled@ == settled(h)
                        && more_body == !h.eos
                } else {
                    step matches Step::Wait(handled) && handled@ == h
                }
            },
        },
    }
}

fn handle(side: Side, had_body: bool, open: bool, presp: ProcessingResponse) -> (r: Handled)
    ensures
        r@ == handled_of(side, had_body, open, presp),
{
    match side {
        Side::Request => handle_response_for_request_mutation(had_body, open, presp),
        Side::Response => handle_response_for_response_mutation(had_body, open, presp),
    }
}

fn take_step(
    side: Side,
    failure_mode: FailureMode,
    had_body: bool,
    presp: Option<ProcessingResponse>,
) -> (r: Step)
    requires
        presp matches Some(p) ==> replies(p.response),
    ensures
        step_of(side, failure_mode, had_body, presp, r),
{
    match presp {
        None => {
            if side == Side::Request && !had_body && failure_mode == FailureMode::FailOpen {
                Step::PassThrough
            } else {
                Step::Fail(Error::NoMoreResponses)
            }
        },
        Some(p) => match to_immediate_response(&p) {
            Some(reply) => Step::Reply(reply),
            None => {
                let ghost given = p;
                let mut handled = handle(side, had_body, true, p);
                if handled.headers_done {
                    let more_body = !handled.eos;
                    handled.edits.push(HeaderEdit::DropContentLength);
                    assert(handled@ =~= settled(handled_of(side, had_body, true, given)));
                    Step::Proceed { handled, more_body }
                } else {
                    Step::Wait(handled)
                }
            },
        },
    }
}

impl ExtProcInstance {
    /// Whether nothing was sent to the processor yet, and the processor is this one.
    pub open spec fn fresh(
        self,
        target: Arc<SimpleBackendReference>,
        policies: Seq<BackendTrafficPolicy>,
        failure_mode: FailureMode,
    ) -> bool {
        &&& self.failure_mode == failure_mode
        &&& !self.skipped
        &&& self.channel.target == target
        &&& self.channel.policies@ == policies
        &&& !self.request_started
        &&& !self.response_started
    }

    /// What becomes of a request once its headers were sent, or could not be.
    pub open spec fn request_start(self, sent: bool, end_of_stream: bool) -> Start {
        if sent {
            Start::Await { had_body: !end_of_stream, edit: HeaderEdit::DropContentLength }
        } else if self.failure_mode == FailureMode::FailOpen {
            Start::PassThrough
        } else {
            Start::Fail(Error::RequestSend)
        }
    }

    /// The processing once the headers of a request were sent, or could not be.
    pub open spec fn after_request(self, sent: bool) -> Self {
        if sent {
            ExtProcInstance { request_started: true, ..self }
        } else {
            ExtProcInstance {
                skipped: self.skipped || self.failure_mode == FailureMode::FailOpen,
                ..self
            }
        }
    }

    /// The processing once an answer about a request led to a step.
    pub open spec fn after_answer(self, step: Step) -> Self {
        ExtProcInstance { skipped: self.skipped || step is PassThrough, ..self }
    }

    /// Whether the processor is told of the response.
    pub open spec fn tells_response(self) -> bool {
        !self.skipped
    }

    /// What becomes of a response once its headers were sent, or could not be. A response never
    /// fails open.
    pub open spec fn response_start(self, sent: bool, end_of_stream: bool) -> Start {
        if !self.tells_response() {
            Start::PassThrough
        } else if sent {
            Start::Await { had_body: !end_of_stream, edit: HeaderEdit::DropContentLength }
        } else {
            Start::Fail(Error::RequestSend)
        }
    }

    /// The processing once the headers of a response were sent, or were not.
    pub open spec fn after_response(self, sent: bool) -> Self {
        ExtProcInstance {
            response_started: self.response_started || (self.tells_response() && sent),
            ..self
        }
    }

    /// Whether a step is the one that an answer makes of a response, or the end of the answers.
    pub open spec fn response_step(
        self,
        had_body: bool,
        presp: Option<ProcessingResponse>,
        step: Step,
    ) -> bool {
        if !self.tells_response() {
            step is PassThrough
        } else {
            step_of(Side::Response, self.failure_mode, had_body, presp, step)
        }
    }

    /// The processing of a request of which nothing was sent yet.
    pub fn new(
        policies: Vec<BackendTrafficPolicy>,
        target: Arc<SimpleBackendReference>,
        failure_mode: FailureMode,
        metadata_context: Option<Arc<MetadataExpressions>>,
        req_attributes: Option<Arc<NamedExpressions>>,
        resp_attributes: Option<Arc<NamedExpressions>>,
    ) -> (r: Self)
        ensures
            r.fresh(target, policies@, failure_mode),
            r.metadata_context == metadata_context,
            r.req_attributes == req_attributes,
            r.resp_attributes == resp_attributes,
    {
        ExtProcInstance {
            failure_mode,
            skipped: false,
            channel: GrpcReferenceChannel { target, policies: Arc::new(policies) },
            metadata_context,
            req_attributes,
            resp_attributes,
            request_started: false,
            response_started: false,
        }
    }

    /// Whether the processor was skipped because it failed.
    pub fn did_fail_open(&self) -> (r: bool)
        ensures
            r == self.skipped,
    {
        self.skipped
    }

    /// What becomes of a request once its headers were sent, or could not be. If they could not,
    /// the failure mode decides.
    pub fn request_sent(&mut self, sent: bool, end_of_stream: bool) -> (r: Start)
        requires
            sent ==> !old(self).request_started,
        ensures
            r == old(self).request_start(sent, end_of_stream),
            *final(self) == old(self).after_request(sent),
    {
        if !sent {
            if self.failure_mode == FailureMode::FailOpen {
                self.skipped = true;
                return Start::PassThrough;
            }
            return Start::Fail(Error::RequestSend);
        }
        self.request_started = true;
        Start::Await { had_body: !end_of_stream, edit: HeaderEdit::DropContentLength }
    }

    /// What the next answer makes of a request, or the end of the answers. A request that goes on
    /// without the processor takes its response along.
    pub fn mutate_request(&mut self, had_body: bool, presp: Option<ProcessingResponse>) -> (r: Step)
        requires
            old(self).request_started,
            presp matches Some(p) ==> replies(p.response),
        ensures
            step_of(Side::Request, old(self).failure_mode, had_body, presp, r),
            *final(self) == old(self).after_answer(r),
    {
        let step = take_step(Side::Request, self.failure_mode, had_body, presp);
        match &step {
            Step::PassThrough => {
                self.skipped = true;
            },
            _ => {},
        }
        step
    }

    /// What becomes of a response. `sent` tells whether its headers were sent; nothing is sent
    /// of a response whose request was not processed. A response never fails open.
    pub fn response_sent(&mut self, sent: bool, end_of_stream: bool) -> (r: Start)
        requires
            sent && !old(self).skipped ==> !old(self).response_started,
        ensures
            r == old(self).response_start(sent, end_of_stream),
            *final(self) == old(self).after_response(sent),
    {
        if self.skipped {
            return Start::PassThrough;
        }
        if !sent {
            return Start::Fail(Error::RequestSend);
        }
        self.response_started = true;
        Start::Await { had_body: !end_of_stream, edit: HeaderEdit::DropContentLength }
    }

    /// What the next answer makes of a response, or the end of the answers. A response whose
    /// request was not processed goes on as it is.
    pub fn mutate_response(&self, had_body: bool, presp: Option<ProcessingResponse>) -> (r: Step)
        requires
            !self.skipped ==> self.response_started,
            !self.skipped ==> (presp matches Some(p) ==> replies(p.response)),
        ensures
            self.response_step(had_body, presp, r),
    {
        if self.skipped {
            return Step::PassThrough;
        }
        take_step(Side::Response, self.failure_mode, had_body, presp)
    }
}

/// What an answer adds to the new body once the headers are settled.
#[derive(Debug)]
pub struct BodyStep {
    /// The next part of the new body.
    pub chunk: Option<Vec<u8>>,
    /// Another answer is awaited.
    pub more: bool,
}

/// What an answer adds to the new body once the headers are settled, or the end of the answers.
pub fn rest_of_body(side: Side, had_body: bool, presp: Option<ProcessingResponse>) -> (r: BodyStep)
    ensures
        match presp {
            Some(p) => {
                let h = handled_of(side, had_body, false, p);
                r.chunk == h.chunk && r.more == (!h.eos && had_body)
            },
            None => r.chunk is None && !r.more,
        },
{
    match presp {
        Some(p) => {
            let handled = handle(side, had_body, false, p);
            BodyStep { chunk: handled.chunk, more: !handled.eos && had_body }
        },
        None => BodyStep { chunk: None, more: false },
    }
}

impl ExtProcInstance {
    /// The message that opens the processing of a request, given what the expressions of the
    /// metadata and of the attributes came to. The attributes are sent with this message only.
    pub fn request_message(
        &self,
        headers: Vec<HeaderValue>,
        end_of_stream: bool,
        metadata: &Vec<Vec<Evaluation>>,
        attributes: &Vec<Evaluation>,
    ) -> (r: ProcessingRequest)
        requires
            evaluates_metadata(self.metadata_context, metadata@),
            evaluates(self.req_attributes, attributes@),
        ensures
            r.side == Side::Request,
            r.request == (Told::Headers { headers, end_of_stream }),
            metadata_of(r.metadata_context, self.metadata_context, metadata@),
            attributes_of(r.attributes@, self.req_attributes, attributes@),
    {
        ProcessingRequest {
            side: Side::Request,
            request: Told::Headers { headers, end_of_stream },
            metadata_context: evaluated_metadata(&self.metadata_context, metadata),
            attributes: evaluated_attributes(&self.req_attributes, attributes),
        }
    }

    /// The message that opens the processing of a response, if the processor is told of it.
    /// `destination` is the endpoint that served the request, if known.
    pub fn response_message(
        &self,
        headers: Vec<HeaderValue>,
        end_of_stream: bool,
        metadata: &Vec<Vec<Evaluation>>,
        attributes: &Vec<Evaluation>,
        destination: Option<String>,
    ) -> (r: Option<ProcessingRequest>)
        requires
            self.tells_response() ==> evaluates_metadata(self.metadata_context, metadata@),
            self.tells_response() ==> evaluates(self.resp_attributes, attributes@),
        ensures
            r is Some <==> self.tells_response(),
            r matches Some(m) ==> {
                &&& m.side == Side::Response
                &&& m.request == (Told::Headers { headers, end_of_stream })
                &&& match (self.metadata_context, destination) {
                    (None, Some(d)) => m.metadata_context is Some && served_by(
                        *m.metadata_context->0,
                        d@,
                    ),
                    _ => metadata_of(m.metadata_context, self.metadata_context, metadata@),
                }
                &&& attributes_of(m.attributes@, self.resp_attributes, attributes@)
            },
    {
        if self.skipped {
            return None;
        }
        Some(
            ProcessingRequest {
                side: Side::Response,
                request: Told::Headers { headers, end_of_stream },
                metadata_context: response_metadata(&self.metadata_context, metadata, destination),
                attributes: evaluated_attributes(&self.resp_attributes, attributes),
            },
        )
    }
}

/// What the processor is told of a part of a body, or of the end of the body.
pub open spec fn body_told(frame: Option<Frame>) -> ToldView {
    match frame {
        Some(Frame::Data(d)) => ToldView::Body { body: d@, end_of_stream: false },
        Some(Frame::Trailers(t)) => ToldView::Trailers { trailers: raw_headers(t@) },
        None => ToldView::Body { body: Seq::empty(), end_of_stream: true },
    }
}

/// The message about the next part of a body, or about its end. It carries the metadata again,
/// and no attributes.
pub fn handle_body_stream(
    side: Side,
    frame: Option<Frame>,
    metadata_context: &Option<Arc<Metadata>>,
) -> (r: ProcessingRequest)
    ensures
        r.side == side,
        r.request@ == body_told(frame),
        r.metadata_context == *metadata_context,
        r.attributes@.len() == 0,
{
    let ghost given = frame;
    let request = match frame {
        Some(Frame::Data(body)) => Told::Body { body, end_of_stream: false },
        Some(Frame::Trailers(t)) => Told::Trailers { trailers: to_header_map(t) },
        None => Told::Body { body: Vec::new(), end_of_stream: true },
    };
    assert(request@ =~= body_told(given));
    ProcessingRequest {
        side,
        request,
        metadata_context: crate::types::policy::share(metadata_context),
        attributes: Vec::new(),
    }
}

/// What the processor is told of a whole body: each part, and then the end.
pub open spec fn transcript(frames: Seq<Frame>) -> Seq<ToldView> {
    frames.map_values(|f: Frame| body_told(Some(f))).push(body_told(None))
}

/// The data in the parts of a body, one after another.
pub open spec fn data_of(frames: Seq<Frame>) -> Seq<u8>
    decreases frames.len(),
{
    if frames.len() == 0 {
        Seq::empty()
    } else {
        match frames.last() {
            Frame::Data(d) => data_of(frames.drop_last()) + d@,
            Frame::Trailers(_) => data_of(frames.drop_last()),
        }
    }
}

/// The data that the processor is told of, one piece after another.
pub open spec fn data_told(told: Seq<ToldView>) -> Seq<u8>
    decreases told.len(),
{
    if told.len() == 0 {
        Seq::empty()
    } else {
        match told.last() {
            ToldView::Body { body, .. } => data_told(told.drop_last()) + body,
            _ => data_told(told.drop_last()),
        }
    }
}

/// The processor is told of a whole body: the data that it gets is the data of the body, nothing
/// lost and nothing added.
pub proof fn body_arrives_whole(frames: Seq<Frame>)
    ensures
        data_told(transcript(frames)) == data_of(frames),
{
    let told = transcript(frames);
    let parts = frames.map_values(|f: Frame| body_told(Some(f)));
    assert(told.drop_last() =~= parts);
    lemma_data_told(frames);
    assert(data_told(parts) + Seq::<u8>::empty() =~= data_told(parts));
}

proof fn lemma_data_told(frames: Seq<Frame>)
    ensures
        data_told(frames.map_values(|f: Frame| body_told(Some(f)))) == data_of(frames),
    decreases frames.len(),
{
    let parts = frames.map_values(|f: Frame| body_told(Some(f)));
    if frames.len() > 0 {
        let rest = frames.drop_last();
        assert(parts.drop_last() =~= rest.map_values(|f: Frame| body_told(Some(f))));
        assert(parts.last() == body_told(Some(frames.last())));
        lemma_data_told(rest);
    }
}

/// The end of a body is told once, and last.
pub proof fn body_ends_once(frames: Seq<Frame>, i: int)
    requires
        0 <= i < transcript(frames).len(),
    ensures
        transcript(frames)[i] matches ToldView::Body { end_of_stream: true, .. } <==> i
            == transcript(frames).len() - 1,
{
    if i < frames.len() {
        assert(transcript(frames)[i] == body_told(Some(frames[i])));
    } else {
        assert(transcript(frames)[i] == body_told(None));
    }
}

/// Once a body goes to the processor, no answer and no lack of answers lets its request or response
/// go on without the processor; nor does any, where failing open is not allowed.
pub proof fn bodies_never_fail_open(
    side: Side,
    failure_mode: FailureMode,
    had_body: bool,
    presp: Option<ProcessingResponse>,
    step: Step,
)
    requires
        step_of(side, failure_mode, had_body, presp, step),
        had_body || side == Side::Response || failure_mode == FailureMode::FailClosed,
    ensures
        !(step is PassThrough),
{
}

/// A request that went on without the processor takes its response along: once the headers of the
/// request could not be sent, or its answers ended, and it failed open, the processor is not told of
/// the response, the response goes on as it is whatever else comes, and that stays so.
pub proof fn failing_open_passes_the_response(
    instance: ExtProcInstance,
    sent: bool,
    end_of_stream: bool,
    had_body: bool,
    presp: Option<ProcessingResponse>,
    step: Step,
    response_sent: bool,
    response_end_of_stream: bool,
    response_had_body: bool,
    answer: Option<ProcessingResponse>,
    response_step: Step,
)
    requires
        instance.request_start(sent, end_of_stream) is PassThrough || (step_of(
            Side::Request,
            instance.failure_mode,
            had_body,
            presp,
            step,
        ) && step is PassThrough),
    ensures
        ({
            let after = if instance.request_start(sent, end_of_stream) is PassThrough {
                instance.after_request(sent)
            } else {
                instance.after_request(sent).after_answer(step)
            };
            &&& after.skipped
            &&& !after.tells_response()
            &&& after.response_start(response_sent, response_end_of_stream) is PassThrough
            &&& after.after_response(response_sent) == after
            &&& after.response_step(response_had_body, answer, response_step)
                ==> response_step is PassThrough
        }),
{
}

/// Whatever changes the processor asks for, a request or response that went through it goes on
/// without the length of its body.
pub proof fn length_is_dropped_last(
    side: Side,
    failure_mode: FailureMode,
    had_body: bool,
    presp: Option<ProcessingResponse>,
    step: Step,
)
    requires
        step_of(side, failure_mode, had_body, presp, step),
    ensures
        step matches Step::Proceed { handled, .. } ==> handled.edits@.len() > 0
            && handled.edits@.last() == HeaderEdit::DropContentLength,
{
}

/// An answer about one side leaves the headers and the body of the other side alone.
pub proof fn sides_are_apart(side: Side, had_body: bool, open: bool, presp: ProcessingResponse)
    requires
        match side {
            Side::Request => recipient_of(presp.response) == Recipient::Response,
            Side::Response => recipient_of(presp.response) == Recipient::Request,
        },
    ensures
        handled_of(side, had_body, open, presp).edits.len() == 0,
        handled_of(side, had_body, open, presp).chunk is None,
        !handled_of(side, had_body, open, presp).headers_done,
        !handled_of(side, had_body, open, presp).eos,
{
}

// ---------------------------------------------------------------------------------------------
// Processing by an endpoint picker, and by a configured service
// ---------------------------------------------------------------------------------------------

/// The header in which an endpoint picker names the destination of a request.
pub const DESTINATION_HEADER: &'static str = "x-gateway-destination-endpoint";

/// Routes requests to the endpoint that a picker names.
#[derive(Debug)]
pub struct InferencePoolRouter {
    pub ext_proc: Option<ExtProcInstance>,
    pub destination_mode: InferenceRoutingDestinationMode,
}

/// What routing by an endpoint picker came to.
#[derive(Debug)]
pub struct InferenceRequestResult {
    pub destination: Option<SocketAddr>,
    pub destination_mode: InferenceRoutingDestinationMode,
    pub policy_response: PolicyResponse,
    pub failed_open: bool,
}

/// Whether a byte of a header can be read as text: a visible ASCII character, a space or a tab.
pub open spec fn is_header_char(b: u8) -> bool {
    32 <= b < 127 || b == 9
}

/// The characters of bytes, one for each.
pub open spec fn ascii_text(bytes: Seq<u8>) -> Text {
    bytes.map_values(|b: u8| b as char)
}

/// `http::HeaderValue::to_str`, on the value that `http::HeaderValue::from_bytes` makes of the
/// bytes: the bytes as text, if every one of them is a visible ASCII character, a space or a tab.
/// Bytes of which no header value can be made hold another one.
#[verifier::external_body]
fn header_text(value: &Vec<u8>) -> (r: Option<String>)
    ensures
        r is Some <==> (forall|i: int| 0 <= i < value@.len() ==> is_header_char(#[trigger] value@[i])),
        r matches Some(t) ==> t@ == ascii_text(value@),
{
    let value = http::HeaderValue::from_bytes(value).ok()?;
    value.to_str().ok().map(|t| t.to_owned())
}

/// What a policy decided: nothing if it has no reply.
pub fn or_default(reply: Option<PolicyResponse>) -> (r: PolicyResponse)
    ensures
        match reply {
            Some(p) => r == p,
            None => r.is_default(),
        },
{
    match reply {
        Some(p) => p,
        None => PolicyResponse::default(),
    }
}

impl InferencePoolRouter {
    /// The router that asks no endpoint picker.
    pub open spec fn inactive() -> Self {
        InferencePoolRouter {
            ext_proc: None,
            destination_mode: InferenceRoutingDestinationMode::Validated,
        }
    }

    /// The router that asks no endpoint picker.
    pub fn none() -> (r: Self)
        ensures
            r == Self::inactive(),
    {
        InferencePoolRouter {
            ext_proc: None,
            destination_mode: InferenceRoutingDestinationMode::Validated,
        }
    }

    /// The text of the header `x-gateway-destination-endpoint`, in which the picker names the
    /// endpoint. A header that is no text names none.
    pub fn endpoint(header: &Option<Vec<u8>>) -> (r: Option<String>)
        ensures
            match *header {
                Some(v) => {
                    &&& r is Some <==> (forall|i: int|
                        0 <= i < v@.len() ==> is_header_char(#[trigger] v@[i]))
                    &&& r matches Some(t) ==> t@ == ascii_text(v@)
                },
                None => r is None,
            },
    {
        match header {
            Some(v) => header_text(v),
            None => None,
        }
    }

    /// What routing came to, given the reply of the processor and the address that the picker
    /// named, if any. A router that asks no picker decides nothing.
    pub fn mutate_request(
        &self,
        reply: Option<PolicyResponse>,
        endpoint: Option<Result<SocketAddr, String>>,
    ) -> (r: Result<InferenceRequestResult, ProxyError>)
        ensures
            match (self.ext_proc, endpoint) {
                (None, _) => r matches Ok(result) && result.destination is None
                    && result.destination_mode == InferenceRoutingDestinationMode::Validated
                    && result.policy_response.is_default() && !result.failed_open,
                (Some(_), Some(Err(e))) => r matches Err(ProxyError::Processing(m)) && m@
                    == "EPP returned invalid address: "@ + e@,
                (Some(p), named) => {
                    &&& r matches Ok(result)
                    &&& result.destination == (match named {
                        Some(Ok(a)) => Some(a),
                        _ => None,
                    })
                    &&& result.destination_mode == self.destination_mode
                    &&& match reply {
                        Some(given) => result.policy_response == given,
                        None => result.policy_response.is_default(),
                    }
                    &&& result.failed_open == p.skipped
                },
            },
    {
        match &self.ext_proc {
            None => Ok(
                InferenceRequestResult {
                    destination: None,
                    destination_mode: InferenceRoutingDestinationMode::Validated,
                    policy_response: PolicyResponse::default(),
                    failed_open: false,
                },
            ),
            Some(p) => {
                let destination = match endpoint {
                    Some(Err(e)) => {
                        return Err(
                            ProxyError::Processing(
                                crate::text::join2("EPP returned invalid address: ", e.as_str()),
                            ),
                        );
                    },
                    Some(Ok(a)) => Some(a),
                    None => None,
                };
                Ok(
                    InferenceRequestResult {
                        destination,
                        destination_mode: self.destination_mode,
                        policy_response: or_default(reply),
                        failed_open: p.did_fail_open(),
                    },
                )
            },
        }
    }
}

impl InferencePoolRouter {
    /// What was decided of a response, given the reply of the processor.
    pub fn mutate_response(&self, reply: Option<PolicyResponse>) -> (r: PolicyResponse)
        ensures
            decided(self.ext_proc, reply, r),
    {
        decide(&self.ext_proc, reply)
    }
}

/// The processing of one request and its response by a configured service.
#[derive(Debug)]
pub struct ExtProcRequest {
    pub ext_proc: Option<ExtProcInstance>,
}

/// Whether a decision is the reply of the processor. Without a processor, or without a reply,
/// nothing is decided.
pub open spec fn decided(
    ext_proc: Option<ExtProcInstance>,
    reply: Option<PolicyResponse>,
    r: PolicyResponse,
) -> bool {
    match (ext_proc, reply) {
        (Some(_), Some(given)) => r == given,
        _ => r.is_default(),
    }
}

fn decide(ext_proc: &Option<ExtProcInstance>, reply: Option<PolicyResponse>) -> (r: PolicyResponse)
    ensures
        decided(*ext_proc, reply, r),
{
    match ext_proc {
        Some(_) => or_default(reply),
        None => PolicyResponse::default(),
    }
}

impl ExtProcRequest {
    /// What was decided of a request, given the reply of the processor.
    pub fn mutate_request(&self, reply: Option<PolicyResponse>) -> (r: PolicyResponse)
        ensures
            decided(self.ext_proc, reply, r),
    {
        decide(&self.ext_proc, reply)
    }

    /// What was decided of a response, given the reply of the processor.
    pub fn mutate_response(&self, reply: Option<PolicyResponse>) -> (r: PolicyResponse)
        ensures
            decided(self.ext_proc, reply, r),
    {
        decide(&self.ext_proc, reply)
    }
}

} // verus!
