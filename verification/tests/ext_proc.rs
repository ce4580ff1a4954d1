//! The exchange with an external processor.

use std::sync::Arc;

use agentgateway::ext_proc::{
    eval_expression, eval_to_struct, evaluated_attributes, evaluated_metadata,
    extract_dynamic_metadata, handle_body_stream, handle_response_for_request_mutation,
    handle_response_for_response_mutation, header_mutations, req_to_header_map,
    resp_to_header_map, response_metadata, rest_of_body, to_header_map, to_immediate_response,
    CommonResponse, Error, Evaluation, ExtProc, ExtProcInstance, ExtProcRequest, FailureMode,
    Frame, HeaderEdit, HeaderMutation, HeaderValue, HeaderValueOption, ImmediateResponse,
    InferencePoolRouter, InferenceRouting, InferenceRoutingDestinationMode, Mutation,
    PolicyResponse, ProcessingResponse, Recipient, Response, Side, Start, Step, Told,
};
use agentgateway::json::Json;
use agentgateway::proxy::ProxyError;
use agentgateway::types::agent::{HeaderOrPseudo, SimpleBackendReference, SocketAddr};
use agentgateway::types::policy::Expression;

fn s(text: &str) -> String {
    text.to_string()
}

fn target() -> Arc<SimpleBackendReference> {
    Arc::new(SimpleBackendReference::Backend(s("/epp")))
}

fn expression(source: &str) -> Arc<Expression> {
    Arc::new(Expression { source: s(source) })
}

fn instance(failure_mode: FailureMode) -> ExtProcInstance {
    ExtProcInstance::new(vec![], target(), failure_mode, None, None, None)
}

fn put(key: &str, value: &str) -> Arc<HeaderValueOption> {
    Arc::new(HeaderValueOption {
        header: HeaderValue {
            key: s(key),
            value: s(value),
            raw_value: vec![],
        },
        append_action: 0,
    })
}

fn answer(response: Response) -> ProcessingResponse {
    ProcessingResponse {
        response: Some(response),
        dynamic_metadata: None,
    }
}

fn chunk(body: &[u8], end_of_stream: bool) -> CommonResponse {
    CommonResponse {
        header_mutation: None,
        body_mutation: Some(Some(Mutation::StreamedResponse {
            body: body.to_vec(),
            end_of_stream,
        })),
    }
}

fn nothing() -> CommonResponse {
    CommonResponse {
        header_mutation: None,
        body_mutation: None,
    }
}

fn reply(status: Option<i32>) -> Response {
    Response::ImmediateResponse(Arc::new(ImmediateResponse {
        status,
        headers: Some(HeaderMutation {
            set_headers: vec![put("x-a", "b")],
            remove_headers: vec![],
        }),
        body: s("denied"),
    }))
}

// ------------------------------------------------------------------------------------------
// Headers and bodies
// ------------------------------------------------------------------------------------------

#[test]
fn the_processor_is_told_of_the_scheme() {
    let headers = req_to_header_map(
        vec![(s("host"), b"example.com".to_vec())],
        vec![(HeaderOrPseudo::Method, s("GET"))],
    );
    assert_eq!(headers.len(), 3);
    assert_eq!(headers[0].key, "host");
    assert_eq!(headers[0].raw_value, b"example.com".to_vec());
    assert_eq!(headers[0].value, "");
    assert_eq!(headers[1].key, ":method");
    assert_eq!(headers[1].value, "GET");
    assert_eq!(headers[2].key, ":scheme");
    assert_eq!(headers[2].value, "http");

    let headers = req_to_header_map(vec![], vec![(HeaderOrPseudo::Scheme, s("https"))]);
    assert_eq!(headers.len(), 1);
    assert_eq!(headers[0].value, "https");
}

#[test]
fn the_processor_is_told_of_the_status() {
    let headers = resp_to_header_map(vec![], 404);
    assert_eq!(headers.len(), 1);
    assert_eq!(headers[0].key, ":status");
    assert_eq!(headers[0].value, "404");
    assert!(to_header_map(vec![]).is_empty());
}

#[test]
fn a_body_is_told_frame_by_frame() {
    let told = handle_body_stream(Side::Request, Some(Frame::Data(b"abc".to_vec())), &None);
    assert!(matches!(told.side, Side::Request));
    match told.request {
        Told::Body {
            body,
            end_of_stream,
        } => {
            assert_eq!(body, b"abc".to_vec());
            assert!(!end_of_stream);
        }
        other => panic!("unexpected message {other:?}"),
    }

    let trailers = vec![(s("x-t"), b"v".to_vec())];
    let told = handle_body_stream(Side::Response, Some(Frame::Trailers(trailers)), &None);
    match told.request {
        Told::Trailers { trailers } => assert_eq!(trailers[0].key, "x-t"),
        other => panic!("unexpected message {other:?}"),
    }

    let told = handle_body_stream(Side::Response, None, &None);
    match told.request {
        Told::Body {
            body,
            end_of_stream,
        } => {
            assert!(body.is_empty());
            assert!(end_of_stream);
        }
        other => panic!("unexpected message {other:?}"),
    }
}

#[test]
fn headers_are_removed_before_they_are_set() {
    let edits = header_mutations(&Some(HeaderMutation {
        set_headers: vec![put("x-a", "1")],
        remove_headers: vec![s("x-a"), s("x-b")],
    }));
    assert_eq!(edits.len(), 3);
    assert!(matches!(&edits[0], HeaderEdit::Remove(n) if n == "x-a"));
    assert!(matches!(&edits[1], HeaderEdit::Remove(n) if n == "x-b"));
    assert!(matches!(&edits[2], HeaderEdit::Put(p) if p.header.value == "1"));
    assert!(header_mutations(&None).is_empty());
}

// ------------------------------------------------------------------------------------------
// Answers
// ------------------------------------------------------------------------------------------

#[test]
fn an_answer_goes_to_its_side() {
    assert!(matches!(
        answer(Response::RequestBody(None)).recipient(),
        Recipient::Request
    ));
    assert!(matches!(
        answer(Response::ResponseTrailers).recipient(),
        Recipient::Response
    ));
    assert!(matches!(answer(reply(None)).recipient(), Recipient::Both));
    let silent = ProcessingResponse {
        response: None,
        dynamic_metadata: None,
    };
    assert!(matches!(silent.recipient(), Recipient::Nobody));
}

#[test]
fn an_immediate_response_is_returned() {
    let made = to_immediate_response(&answer(reply(Some(403)))).expect("a reply");
    let direct = made.direct_response.expect("a reply");
    assert_eq!(direct.status, 403);
    assert_eq!(direct.body, "denied");
    assert_eq!(direct.edits.len(), 1);

    let made = to_immediate_response(&answer(reply(None))).expect("a reply");
    assert_eq!(made.direct_response.expect("a reply").status, 200);
    assert!(to_immediate_response(&answer(Response::RequestTrailers)).is_none());
}

#[test]
fn a_request_without_a_body_is_done_with_its_headers() {
    let h = handle_response_for_request_mutation(
        false,
        true,
        answer(Response::RequestHeaders(Some(nothing()))),
    );
    assert!(h.headers_done);
    assert!(h.eos);

    let h = handle_response_for_request_mutation(
        true,
        true,
        answer(Response::RequestHeaders(Some(nothing()))),
    );
    assert!(h.headers_done);
    assert!(!h.eos);
}

#[test]
fn an_empty_answer_to_response_headers_does_not_end_the_body() {
    let h = handle_response_for_response_mutation(
        false,
        true,
        answer(Response::ResponseHeaders(None)),
    );
    assert!(h.headers_done);
    assert!(!h.eos);
    let h = handle_response_for_request_mutation(
        false,
        true,
        answer(Response::RequestHeaders(None)),
    );
    assert!(h.eos);
}

#[test]
fn chunks_are_passed_on_until_the_last() {
    let h = handle_response_for_request_mutation(
        true,
        true,
        answer(Response::RequestBody(Some(chunk(b"one", false)))),
    );
    assert_eq!(h.chunk, Some(b"one".to_vec()));
    assert!(!h.eos);
    let h = handle_response_for_request_mutation(
        true,
        true,
        answer(Response::RequestBody(Some(chunk(b"two", true)))),
    );
    assert_eq!(h.chunk, Some(b"two".to_vec()));
    assert!(h.eos);
    assert!(!h.headers_done);

    let whole = CommonResponse {
        header_mutation: None,
        body_mutation: Some(Some(Mutation::Body(b"all".to_vec()))),
    };
    let h = handle_response_for_request_mutation(
        false,
        true,
        answer(Response::RequestBody(Some(whole))),
    );
    assert_eq!(h.chunk, None);
    assert!(!h.eos);
}

#[test]
fn answers_to_the_other_side_are_ignored() {
    let h = handle_response_for_request_mutation(
        true,
        true,
        answer(Response::ResponseBody(Some(chunk(b"x", true)))),
    );
    assert_eq!(h.chunk, None);
    assert!(!h.eos);
    assert!(!h.headers_done);
}

#[test]
fn the_rest_of_a_body_ends_with_its_last_chunk() {
    let step = rest_of_body(
        Side::Response,
        true,
        Some(answer(Response::ResponseBody(Some(chunk(b"x", false))))),
    );
    assert_eq!(step.chunk, Some(b"x".to_vec()));
    assert!(step.more);
    let step = rest_of_body(
        Side::Response,
        true,
        Some(answer(Response::ResponseBody(Some(chunk(b"y", true))))),
    );
    assert!(!step.more);
    let step = rest_of_body(Side::Request, true, None);
    assert_eq!(step.chunk, None);
    assert!(!step.more);
}

// ------------------------------------------------------------------------------------------
// The exchange
// ------------------------------------------------------------------------------------------

#[test]
fn a_processor_that_cannot_be_told_fails_the_request() {
    let mut closed = instance(FailureMode::FailClosed);
    match closed.request_sent(false, true) {
        Start::Fail(e) => assert_eq!(e.message(), "failed to send request"),
        other => panic!("unexpected start {other:?}"),
    }
    assert!(!closed.did_fail_open());
}

#[test]
fn a_processor_that_fails_open_is_skipped() {
    let mut open = instance(FailureMode::FailOpen);
    assert!(matches!(open.request_sent(false, true), Start::PassThrough));
    assert!(open.did_fail_open());
    assert!(matches!(open.response_sent(true, true), Start::PassThrough));
    assert!(!open.response_started);
    assert!(open
        .response_message(vec![], true, &vec![], &vec![], None)
        .is_none());
    assert!(matches!(
        open.mutate_response(true, Some(answer(reply(Some(401))))),
        Step::PassThrough
    ));
    assert!(matches!(
        open.mutate_response(false, None),
        Step::PassThrough
    ));
}

#[test]
fn an_exchange_drops_the_content_length() {
    let mut i = instance(FailureMode::FailClosed);
    match i.request_sent(true, false) {
        Start::Await { had_body, edit } => {
            assert!(had_body);
            assert!(matches!(edit, HeaderEdit::DropContentLength));
        }
        other => panic!("unexpected start {other:?}"),
    }
    let mutation = CommonResponse {
        header_mutation: Some(HeaderMutation {
            set_headers: vec![put("content-length", "7")],
            remove_headers: vec![],
        }),
        body_mutation: None,
    };
    match i.mutate_request(
        true,
        Some(answer(Response::RequestHeaders(Some(mutation)))),
    ) {
        Step::Proceed { handled, more_body } => {
            assert!(more_body);
            assert_eq!(handled.edits.len(), 2);
            assert!(matches!(handled.edits[1], HeaderEdit::DropContentLength));
        }
        other => panic!("unexpected step {other:?}"),
    }
}

#[test]
fn an_exchange_waits_for_the_headers() {
    let mut i = instance(FailureMode::FailClosed);
    i.request_sent(true, false);
    let step = i.mutate_request(true, Some(answer(Response::RequestTrailers)));
    assert!(matches!(step, Step::Wait(_)));
    match i.mutate_request(true, Some(answer(reply(Some(401))))) {
        Step::Reply(r) => assert_eq!(r.direct_response.unwrap().status, 401),
        other => panic!("unexpected step {other:?}"),
    }
}

#[test]
fn a_processor_that_falls_silent_fails_open_only_without_a_body() {
    let mut i = instance(FailureMode::FailOpen);
    i.request_sent(true, true);
    assert!(matches!(i.mutate_request(false, None), Step::PassThrough));
    assert!(i.did_fail_open());

    let mut i = instance(FailureMode::FailOpen);
    i.request_sent(true, false);
    match i.mutate_request(true, None) {
        Step::Fail(e) => assert_eq!(e.message(), "no more response messages"),
        other => panic!("unexpected step {other:?}"),
    }

    let mut i = instance(FailureMode::FailClosed);
    i.request_sent(true, true);
    assert!(matches!(
        i.mutate_request(false, None),
        Step::Fail(Error::NoMoreResponses)
    ));

    let mut i = instance(FailureMode::FailOpen);
    i.response_sent(true, true);
    assert!(matches!(
        i.mutate_response(false, None),
        Step::Fail(Error::NoMoreResponses)
    ));
}

#[test]
fn errors_tell_what_failed() {
    assert_eq!(Error::ResponseDropped.message(), "no more responses");
    assert_eq!(
        Error::BodyBuffer(s("too large")).message(),
        "failed to buffer body: too large"
    );
    assert_eq!(
        Error::MetadataConversion(s("x")).message(),
        "failed to convert metadata value: x"
    );
    assert_eq!(Error::InvalidHeaderName(s("bad name")).message(), "bad name");
    assert_eq!(Error::InvalidHeaderValue(s("bad")).message(), "bad");
    assert!(matches!(
        ProxyError::from(Error::RequestSend),
        ProxyError::ExtProc(Error::RequestSend)
    ));
}

// ------------------------------------------------------------------------------------------
// Expressions
// ------------------------------------------------------------------------------------------

#[test]
fn expressions_that_fail_are_left_out() {
    let list = vec![
        (s("a"), expression("1")),
        (s("b"), expression("fail()")),
        (s("c"), expression("2")),
    ];
    let fields = eval_to_struct(
        &list,
        &vec![
            Evaluation::Value(Arc::new(Json::Number(s("1")))),
            Evaluation::Failed(s("no")),
            Evaluation::Value(Arc::new(Json::Number(s("2")))),
        ],
    );
    let names: Vec<&str> = fields.iter().map(|f| f.0.as_str()).collect();
    assert_eq!(names, vec!["a", "c"]);
    assert!(matches!(
        eval_expression(&Evaluation::NotJson(s("not json"))),
        Err(ProxyError::Processing(m)) if m == "not json"
    ));
    assert!(matches!(
        eval_expression(&Evaluation::Failed(s("no"))),
        Err(ProxyError::Processing(m)) if m == "no"
    ));
}

#[test]
fn attributes_and_metadata_are_named() {
    let list = Some(Arc::new(vec![(s("a"), expression("true"))]));
    let attributes = evaluated_attributes(
        &list,
        &vec![Evaluation::Value(Arc::new(Json::Bool(true)))],
    );
    assert_eq!(attributes.len(), 1);
    assert_eq!(attributes[0].0, "envoy.filters.http.ext_proc");
    assert!(evaluated_attributes(&None, &vec![]).is_empty());

    let context = Some(Arc::new(vec![(s("ns"), vec![(s("a"), expression("true"))])]));
    let outcomes = vec![vec![Evaluation::Value(Arc::new(Json::Bool(true)))]];
    let metadata = evaluated_metadata(&context, &outcomes).expect("metadata");
    assert_eq!(metadata.filter_metadata[0].0, "ns");
    assert_eq!(metadata.filter_metadata[0].1.len(), 1);
}

#[test]
fn the_endpoint_that_served_is_told_unless_metadata_is_set() {
    let metadata = response_metadata(&None, &vec![], Some(s("10.0.0.1:80"))).expect("metadata");
    assert_eq!(metadata.filter_metadata[0].0, "envoy.lb");
    let (name, value) = &metadata.filter_metadata[0].1[0];
    assert_eq!(name, "x-gateway-destination-endpoint-served");
    assert!(matches!(&**value, Json::Text(t) if t == "10.0.0.1:80"));
    assert!(response_metadata(&None, &vec![], None).is_none());
}

#[test]
fn dynamic_metadata_accumulates() {
    let one = vec![
        (s("a"), Ok(Arc::new(Json::Bool(true)))),
        (s("b"), Ok(Arc::new(Json::Null))),
    ];
    let (held, r) = extract_dynamic_metadata(None, &one);
    assert!(r.is_ok());
    let two = vec![(s("a"), Ok(Arc::new(Json::Bool(false))))];
    let (held, r) = extract_dynamic_metadata(held, &two);
    assert!(r.is_ok());
    let held = held.expect("metadata");
    assert_eq!(held.fields.len(), 2);
    assert!(matches!(
        held.fields.get("a").map(|v| &**v),
        Some(Json::Bool(false))
    ));
    let (none, r) = extract_dynamic_metadata(None, &vec![]);
    assert!(none.is_none());
    assert!(r.is_ok());
}

#[test]
fn metadata_that_cannot_be_converted_is_refused() {
    let fields = vec![(s("k"), Err(s("not finite")))];
    let (held, r) = extract_dynamic_metadata(None, &fields);
    assert!(held.is_none());
    assert_eq!(
        r.unwrap_err().message(),
        "failed to convert metadata value: failed to convert key 'k': not finite"
    );
}

#[test]
fn all_expressions_of_a_processor_are_listed() {
    let e = ExtProc {
        target: target(),
        policies: vec![],
        failure_mode: FailureMode::FailClosed,
        metadata_context: Some(Arc::new(vec![(s("ns"), vec![(s("a"), expression("m"))])])),
        request_attributes: Some(Arc::new(vec![(s("b"), expression("r"))])),
        response_attributes: Some(Arc::new(vec![(s("c"), expression("s"))])),
    };
    let mut sources: Vec<String> = e.expressions().iter().map(|x| x.source.clone()).collect();
    sources.sort();
    assert_eq!(sources, vec![s("m"), s("r"), s("s")]);
    let built = e.build().ext_proc.expect("an instance");
    assert!(!built.did_fail_open());
    assert!(built.metadata_context.is_some());
}

// ------------------------------------------------------------------------------------------
// Endpoint pickers
// ------------------------------------------------------------------------------------------

#[test]
fn an_endpoint_is_read_from_its_header() {
    assert_eq!(
        InferencePoolRouter::endpoint(&Some(b"10.0.0.1:80".to_vec())),
        Some(s("10.0.0.1:80"))
    );
    assert_eq!(InferencePoolRouter::endpoint(&Some(vec![0xff])), None);
    assert_eq!(InferencePoolRouter::endpoint(&Some(vec![b'a', b'\n'])), None);
    assert_eq!(
        InferencePoolRouter::endpoint(&Some(b"a\tb".to_vec())),
        Some(s("a\tb"))
    );
    assert_eq!(InferencePoolRouter::endpoint(&None), None);
}

#[test]
fn a_picker_names_the_destination() {
    let routing = InferenceRouting::from_config(
        target(),
        InferenceRoutingDestinationMode::Passthrough,
    );
    assert!(matches!(routing.failure_mode, FailureMode::FailClosed));
    let router = routing.build();
    let address = SocketAddr::V4 {
        ip: 0x0a000001,
        port: 80,
    };
    let result = router.mutate_request(None, Some(Ok(address))).expect("a result");
    assert_eq!(result.destination, Some(address));
    assert!(matches!(
        result.destination_mode,
        InferenceRoutingDestinationMode::Passthrough
    ));
    assert!(!result.failed_open);

    match router.mutate_request(None, Some(Err(s("x:y")))) {
        Err(ProxyError::Processing(m)) => assert_eq!(m, "EPP returned invalid address: x:y"),
        other => panic!("unexpected result {other:?}"),
    }

    let result = InferencePoolRouter::none()
        .mutate_request(None, Some(Ok(address)))
        .expect("a result");
    assert_eq!(result.destination, None);
}

#[test]
fn replies_are_those_of_the_processor() {
    let given = || to_immediate_response(&answer(reply(Some(403))));
    let idle = ExtProcRequest { ext_proc: None };
    assert!(idle.mutate_request(given()).direct_response.is_none());
    let busy = ExtProcRequest {
        ext_proc: Some(instance(FailureMode::FailClosed)),
    };
    assert!(busy.mutate_request(given()).direct_response.is_some());
    assert!(busy.mutate_response(None).direct_response.is_none());
    let none = PolicyResponse::default();
    assert!(none.response_headers.is_none());
    assert!(InferencePoolRouter::none()
        .mutate_response(given())
        .direct_response
        .is_none());
}

#[test]
fn messages_carry_metadata_and_attributes() {
    let i = ExtProcInstance::new(
        vec![],
        target(),
        FailureMode::FailClosed,
        None,
        Some(Arc::new(vec![(s("a"), expression("true"))])),
        None,
    );
    let m = i.request_message(
        vec![],
        true,
        &vec![],
        &vec![Evaluation::Value(Arc::new(Json::Bool(true)))],
    );
    assert!(matches!(m.side, Side::Request));
    assert_eq!(m.attributes.len(), 1);
    assert!(m.metadata_context.is_none());
    let m = i
        .response_message(vec![], false, &vec![], &vec![], Some(s("e")))
        .expect("a message");
    assert!(matches!(m.side, Side::Response));
    assert!(m.attributes.is_empty());
    assert!(m.metadata_context.is_some());
    assert!(matches!(
        m.request,
        Told::Headers {
            end_of_stream: false,
            ..
        }
    ));
}
