//! Laws of the exchange with an external processor: what each answer does, and what the processor
//! is told.

use std::sync::Arc;

use vstd::prelude::*;

use crate::ext_proc::{
    ascii_text, attributes_of, bad_field_text, body_told, decided, first_bad_field, handled_of,
    is_header_char, merged_fields, metadata_of, raw_headers, recipient_of, replies, reply_of,
    request_handled, request_headers_of, response_handled, served_by, step_of, text_headers,
    transcript, values_of, CommonResponse, Error, Evaluation, ExtProc, ExtProcInstance, FailureMode,
    Fields, Frame, Handled, HeaderEdit, HeaderMutation, HeaderValue, HeaderValueView,
    ImmediateResponse, InferencePoolRouter, InferenceRouting, InferenceRoutingDestinationMode,
    Metadata, MetadataExpressions, Mutation, NamedExpressions, PolicyResponse, ProcessingResponse,
    Recipient, Response, Side, Start, Step, Told, ToldView,
};
use crate::json::Json;
use crate::text::Text;
use crate::types::agent::{HeaderOrPseudo, SimpleBackendReference};
use crate::types::policy::Expression;
use crate::types::traffic::BackendTrafficPolicy;

verus! {

// ---------------------------------------------------------------------------------------------
// What answers do to headers
// ---------------------------------------------------------------------------------------------

/// While the headers are open, an answer about a side that holds a change of headers makes exactly
/// the edits of that change, for responses as for requests: it removes every name that is to be
/// removed, in order, and then puts every header that is to be set, in order.
pub proof fn answers_edit_headers_as_asked(
    side: Side,
    had_body: bool,
    presp: ProcessingResponse,
    cr: CommonResponse,
    hm: HeaderMutation,
    i: int,
)
    requires
        presp.response == Some(
            match side {
                Side::Request => Response::RequestHeaders(Some(cr)),
                Side::Response => Response::ResponseHeaders(Some(cr)),
            },
        ) || presp.response == Some(
            match side {
                Side::Request => Response::RequestBody(Some(cr)),
                Side::Response => Response::ResponseBody(Some(cr)),
            },
        ),
        cr.header_mutation == Some(hm),
    ensures
        ({
            let edits = match side {
                Side::Request => request_handled(had_body, true, presp).edits,
                Side::Response => response_handled(had_body, true, presp).edits,
            };
            let n = hm.remove_headers@.len();
            &&& edits.len() == n + hm.set_headers@.len()
            &&& 0 <= i < n ==> edits[i] == HeaderEdit::Remove(hm.remove_headers@[i])
            &&& 0 <= i < hm.set_headers@.len() ==> edits[n + i] == HeaderEdit::Put(
                hm.set_headers@[i],
            )
            &&& handled_of(side, had_body, true, presp).edits == edits
        }),
{
}

/// An answer without a change of headers, or one that comes when the headers are settled, edits no
/// header.
pub proof fn other_answers_edit_no_header(
    side: Side,
    had_body: bool,
    open: bool,
    presp: ProcessingResponse,
)
    requires
        open ==> match presp.response {
            Some(Response::RequestHeaders(Some(cr))) => cr.header_mutation is None,
            Some(Response::RequestBody(Some(cr))) => cr.header_mutation is None,
            Some(Response::ResponseHeaders(Some(cr))) => cr.header_mutation is None,
            Some(Response::ResponseBody(Some(cr))) => cr.header_mutation is None,
            _ => true,
        },
    ensures
        request_handled(had_body, open, presp).edits.len() == 0,
        response_handled(had_body, open, presp).edits.len() == 0,
        handled_of(side, had_body, open, presp).edits.len() == 0,
{
}

/// The step that an answer leads to applies the header changes of the answer, whichever side it is
/// about. If the headers are then settled the length of the body is dropped after them, and that is
/// the only other edit.
pub proof fn steps_apply_the_header_changes(
    side: Side,
    failure_mode: FailureMode,
    had_body: bool,
    presp: ProcessingResponse,
    cr: CommonResponse,
    hm: HeaderMutation,
    step: Step,
    i: int,
)
    requires
        step_of(side, failure_mode, had_body, Some(presp), step),
        cr.header_mutation == Some(hm),
        presp.response == Some(
            match side {
                Side::Request => Response::RequestHeaders(Some(cr)),
                Side::Response => Response::ResponseHeaders(Some(cr)),
            },
        ) || presp.response == Some(
            match side {
                Side::Request => Response::RequestBody(Some(cr)),
                Side::Response => Response::ResponseBody(Some(cr)),
            },
        ),
    ensures
        ({
            let n = hm.remove_headers@.len();
            let m = hm.set_headers@.len();
            let edits = match step {
                Step::Proceed { handled, more_body } => handled.edits@,
                Step::Wait(handled) => handled.edits@,
                _ => Seq::empty(),
            };
            &&& step is Proceed || step is Wait
            &&& edits.len() == n + m + (if step is Proceed {
                1int
            } else {
                0
            })
            &&& 0 <= i < n ==> edits[i] == HeaderEdit::Remove(hm.remove_headers@[i])
            &&& 0 <= i < m ==> edits[n + i] == HeaderEdit::Put(hm.set_headers@[i])
            &&& step is Proceed ==> edits.last() == HeaderEdit::DropContentLength
        }),
{
}

// ---------------------------------------------------------------------------------------------
// What answers do to bodies
// ---------------------------------------------------------------------------------------------

/// An answer about a side that holds a part of the new body passes on that part, and ends the body
/// exactly if the processor says so. One that leaves the body alone ends it exactly if there was
/// none. One with a change that is not valid in a stream adds nothing and does not end the body.
pub proof fn answers_stream_the_new_body(
    side: Side,
    had_body: bool,
    open: bool,
    presp: ProcessingResponse,
    cr: CommonResponse,
)
    requires
        presp.response == Some(
            match side {
                Side::Request => Response::RequestHeaders(Some(cr)),
                Side::Response => Response::ResponseHeaders(Some(cr)),
            },
        ) || presp.response == Some(
            match side {
                Side::Request => Response::RequestBody(Some(cr)),
                Side::Response => Response::ResponseBody(Some(cr)),
            },
        ),
    ensures
        ({
            let h = match side {
                Side::Request => request_handled(had_body, open, presp),
                Side::Response => response_handled(had_body, open, presp),
            };
            &&& h == handled_of(side, had_body, open, presp)
            &&& match cr.body_mutation {
                Some(Some(Mutation::StreamedResponse { body, end_of_stream })) => h.chunk == Some(
                    body,
                ) && h.eos == end_of_stream,
                Some(Some(_)) => h.chunk is None && !h.eos,
                Some(None) => h.chunk is None && h.eos == !had_body,
                None => h.chunk is None && h.eos == !had_body,
            }
        }),
{
}

/// The headers of a side are settled by the answer about them, and by no other answer about that
/// side. An answer without content about the body ends the body; one about the headers of a request
/// ends it if there was none.
pub proof fn headers_are_settled_by_their_answer(
    had_body: bool,
    open: bool,
    presp: ProcessingResponse,
)
    ensures
        presp.response matches Some(Response::RequestHeaders(_)) ==> request_handled(
            had_body,
            open,
            presp,
        ).headers_done,
        presp.response matches Some(Response::RequestBody(_)) ==> !request_handled(
            had_body,
            open,
            presp,
        ).headers_done,
        presp.response matches Some(Response::ResponseHeaders(_)) ==> response_handled(
            had_body,
            open,
            presp,
        ).headers_done,
        presp.response matches Some(Response::ResponseBody(_)) ==> !response_handled(
            had_body,
            open,
            presp,
        ).headers_done,
        presp.response matches Some(Response::RequestHeaders(None)) ==> {
            &&& request_handled(had_body, open, presp).eos == !had_body
            &&& request_handled(had_body, open, presp).chunk is None
        },
        presp.response matches Some(Response::RequestBody(None)) ==> {
            &&& request_handled(had_body, open, presp).eos
            &&& request_handled(had_body, open, presp).chunk is None
        },
        presp.response matches Some(Response::ResponseHeaders(None)) ==> {
            &&& !response_handled(had_body, open, presp).eos
            &&& response_handled(had_body, open, presp).chunk is None
        },
        presp.response matches Some(Response::ResponseBody(None)) ==> {
            &&& response_handled(had_body, open, presp).eos
            &&& response_handled(had_body, open, presp).chunk is None
        },
        presp.response matches Some(Response::ImmediateResponse(_)) ==> {
            &&& request_handled(had_body, open, presp).headers_done
            &&& request_handled(had_body, open, presp).eos
            &&& request_handled(had_body, open, presp).chunk is None
            &&& !response_handled(had_body, open, presp).headers_done
            &&& !response_handled(had_body, open, presp).eos
            &&& response_handled(had_body, open, presp).chunk is None
        },
        (presp.response is None || presp.response->0 is RequestTrailers || presp.response->0
            is ResponseTrailers) ==> {
            &&& !request_handled(had_body, open, presp).headers_done
            &&& !request_handled(had_body, open, presp).eos
            &&& request_handled(had_body, open, presp).chunk is None
            &&& !response_handled(had_body, open, presp).headers_done
            &&& !response_handled(had_body, open, presp).eos
            &&& response_handled(had_body, open, presp).chunk is None
        },
{
}

/// The metadata of an answer goes to the request while its headers are open, whatever the answer is
/// about, and never to a response.
pub proof fn metadata_goes_to_open_requests(
    had_body: bool,
    open: bool,
    presp: ProcessingResponse,
)
    ensures
        request_handled(had_body, true, presp).metadata == presp.dynamic_metadata,
        request_handled(had_body, false, presp).metadata is None,
        response_handled(had_body, open, presp).metadata is None,
{
}

/// The step that an answer leads to: an immediate reply is given at once; an answer about the
/// headers of the side lets the side go on, with more of its body to come unless the body is
/// complete; after any other the next answer is awaited. Without an answer a request without a body
/// goes on where failing open is allowed, and everything else fails.
pub proof fn steps_follow_the_answers(
    side: Side,
    failure_mode: FailureMode,
    had_body: bool,
    presp: Option<ProcessingResponse>,
    step: Step,
)
    requires
        step_of(side, failure_mode, had_body, presp, step),
    ensures
        presp is None ==> if side == Side::Request && !had_body && failure_mode
            == FailureMode::FailOpen {
            step is PassThrough
        } else {
            step matches Step::Fail(e) && e is NoMoreResponses
        },
        presp matches Some(p) ==> match p.response {
            Some(Response::ImmediateResponse(_)) => step is Reply,
            Some(Response::RequestHeaders(cr)) => if side == Side::Request {
                &&& step is Proceed
                &&& cr is None ==> step->more_body == had_body
                &&& cr matches Some(c) ==> (match c.body_mutation {
                    Some(Some(Mutation::StreamedResponse { body, end_of_stream })) =>
                        step->more_body == !end_of_stream && step->handled.chunk == Some(body),
                    Some(Some(_)) => step->more_body && step->handled.chunk is None,
                    _ => step->more_body == had_body && step->handled.chunk is None,
                })
            } else {
                step is Wait
            },
            Some(Response::ResponseHeaders(cr)) => if side == Side::Response {
                &&& step is Proceed
                &&& cr is None ==> step->more_body
                &&& cr matches Some(c) ==> (match c.body_mutation {
                    Some(Some(Mutation::StreamedResponse { body, end_of_stream })) =>
                        step->more_body == !end_of_stream && step->handled.chunk == Some(body),
                    Some(Some(_)) => step->more_body && step->handled.chunk is None,
                    _ => step->more_body == had_body && step->handled.chunk is None,
                })
            } else {
                step is Wait
            },
            _ => step is Wait,
        },
{
}

/// An immediate reply has the status that the processor names, 200 if it names none, the body that
/// it gives, and exactly the header edits that it asks for.
pub proof fn immediate_reply_is_as_given(reply: PolicyResponse, ir: ImmediateResponse, i: int)
    requires
        reply_of(reply, ir),
    ensures
        reply.response_headers is None,
        reply.direct_response matches Some(d) && {
            &&& ir.status is None ==> d.status == 200
            &&& ir.status matches Some(code) ==> (0 <= code <= u16::MAX ==> d.status == code)
            &&& d.body == ir.body
            &&& ir.headers is None ==> d.edits@.len() == 0
            &&& ir.headers matches Some(hm) ==> {
                let n = hm.remove_headers@.len();
                &&& d.edits@.len() == n + hm.set_headers@.len()
                &&& 0 <= i < n ==> d.edits@[i] == HeaderEdit::Remove(hm.remove_headers@[i])
                &&& 0 <= i < hm.set_headers@.len() ==> d.edits@[n + i] == HeaderEdit::Put(
                    hm.set_headers@[i],
                )
            }
        },
{
}

/// An answer goes to the side that it is about; an immediate reply to both, one that is about
/// nothing to neither.
pub proof fn answers_go_to_their_side(response: Response)
    ensures
        recipient_of(None) == Recipient::Nobody,
        recipient_of(Some(response)) == Recipient::Request <==> response is RequestHeaders
            || response is RequestBody || response is RequestTrailers,
        recipient_of(Some(response)) == Recipient::Response <==> response is ResponseHeaders
            || response is ResponseBody || response is ResponseTrailers,
        recipient_of(Some(response)) == Recipient::Both <==> response is ImmediateResponse,
{
}

// ---------------------------------------------------------------------------------------------
// Metadata
// ---------------------------------------------------------------------------------------------

/// A further field of an answer replaces the field of its name and leaves the others; one without a
/// JSON form spoils the metadata, and the first such field is the one that is reported.
pub proof fn further_field_replaces_its_name(
    held: Map<Text, Arc<Json>>,
    fields: Seq<(String, Result<Arc<Json>, String>)>,
    name: String,
    value: Result<Arc<Json>, String>,
)
    ensures
        merged_fields(held, Seq::empty()) == Some(held),
        merged_fields(held, fields.push((name, value))) == (match (
            merged_fields(held, fields),
            value,
        ) {
            (Some(m), Ok(v)) => Some(m.insert(name@, v)),
            _ => None,
        }),
        first_bad_field(Seq::empty()) is None,
        first_bad_field(fields.push((name, value))) == (match (first_bad_field(fields), value) {
            (Some(i), _) => Some(i),
            (None, Ok(_)) => None,
            (None, Err(_)) => Some(fields.len() as int),
        }),
{
    assert(fields.push((name, value)).drop_last() =~= fields);
}

/// An expression that has a value adds its name and that value, in order; one that has none adds
/// nothing.
pub proof fn expressions_with_values_are_told(
    expressions: Seq<(String, Arc<Expression>)>,
    outcomes: Seq<Evaluation>,
    outcome: Evaluation,
)
    ensures
        values_of(expressions, Seq::empty()) == Seq::<(String, Arc<Json>)>::empty(),
        values_of(expressions, outcomes.push(outcome)) == (match outcome {
            Evaluation::Value(v) => values_of(expressions, outcomes).push(
                (expressions[outcomes.len() as int].0, v),
            ),
            _ => values_of(expressions, outcomes),
        }),
{
    assert(outcomes.push(outcome).drop_last() =~= outcomes);
}

/// Metadata that is asked for is sent namespace by namespace, in order, each under its name with
/// the values of its expressions; where none is asked for none is sent. Attributes that are asked
/// for are sent in the namespace of the processor, and no others.
pub proof fn metadata_is_sent_by_namespace(
    metadata: Option<Arc<Metadata>>,
    context: Option<Arc<MetadataExpressions>>,
    outcomes: Seq<Vec<Evaluation>>,
    attributes: Seq<(String, Fields)>,
    list: Option<Arc<NamedExpressions>>,
    results: Seq<Evaluation>,
    i: int,
)
    requires
        metadata_of(metadata, context, outcomes),
        attributes_of(attributes, list, results),
    ensures
        context is None ==> metadata is None,
        context matches Some(m) ==> (metadata matches Some(sent) && {
            &&& sent.filter_metadata@.len() == m@.len()
            &&& 0 <= i < m@.len() ==> sent.filter_metadata@[i].0 == m@[i].0
                && sent.filter_metadata@[i].1@ == values_of(m@[i].1@, outcomes[i]@)
        }),
        list is None ==> attributes.len() == 0,
        list matches Some(l) ==> attributes.len() == 1 && attributes[0].0@
            == "envoy.filters.http.ext_proc"@ && attributes[0].1@ == values_of(l@, results),
{
    if context is Some {
        assert(crate::ext_proc::metadata_view(*metadata->0).len()
            == metadata->0.filter_metadata@.len());
        if 0 <= i < context->0@.len() {
            assert(crate::ext_proc::metadata_view(*metadata->0)[i] == (
                metadata->0.filter_metadata@[i].0,
                metadata->0.filter_metadata@[i].1@,
            ));
        }
    }
}

/// The expressions that a processor needs are those of its metadata, namespace by namespace, then
/// those of the request attributes, then those of the response attributes: each of them is there.
pub proof fn processor_needs_all_its_expressions(p: ExtProc, n: int, i: int)
    ensures
        p.metadata_context matches Some(m) ==> (0 <= n < m@.len() && 0 <= i < m@[n].1@.len()
            ==> p.all_expressions().contains(m@[n].1@[i].1)),
        p.request_attributes matches Some(l) ==> (0 <= i < l@.len() ==> p.all_expressions().contains(
            l@[i].1,
        )),
        p.response_attributes matches Some(l) ==> (0 <= i < l@.len()
            ==> p.all_expressions().contains(l@[i].1)),
{
    let a = match p.metadata_context {
        Some(m) => crate::ext_proc::namespace_expressions(m@, m@.len() as int),
        None => Seq::empty(),
    };
    let b = crate::ext_proc::named_expressions(p.request_attributes);
    let c = crate::ext_proc::named_expressions(p.response_attributes);
    let all = p.all_expressions();
    assert(all == a + b + c);
    match p.metadata_context {
        Some(m) => {
            if 0 <= n < m@.len() && 0 <= i < m@[n].1@.len() {
                lemma_namespace_expressions(m@, m@.len() as int, n, i);
                let j = a.index_of(m@[n].1@[i].1);
                assert(all[j] == m@[n].1@[i].1);
            }
        },
        None => {},
    }
    match p.request_attributes {
        Some(l) => {
            if 0 <= i < l@.len() {
                assert(b[i] == l@[i].1);
                assert(all[a.len() + i] == l@[i].1);
            }
        },
        None => {},
    }
    match p.response_attributes {
        Some(l) => {
            if 0 <= i < l@.len() {
                assert(c[i] == l@[i].1);
                assert(all[a.len() + b.len() + i] == l@[i].1);
            }
        },
        None => {},
    }
}

proof fn lemma_namespace_expressions(
    namespaces: Seq<(String, NamedExpressions)>,
    m: int,
    n: int,
    i: int,
)
    requires
        0 <= n < m <= namespaces.len(),
        0 <= i < namespaces[n].1@.len(),
    ensures
        crate::ext_proc::namespace_expressions(namespaces, m).contains(namespaces[n].1@[i].1),
    decreases m,
{
    let x = namespaces[n].1@[i].1;
    let before = crate::ext_proc::namespace_expressions(namespaces, m - 1);
    let own = crate::types::frontend::field_expressions(namespaces[m - 1].1@);
    let all = crate::ext_proc::namespace_expressions(namespaces, m);
    assert(all == before + own);
    if n == m - 1 {
        assert(own[i] == x);
        assert(all[before.len() + i] == x);
    } else {
        lemma_namespace_expressions(namespaces, m - 1, n, i);
        assert(all[before.index_of(x)] == x);
    }
}

// ---------------------------------------------------------------------------------------------
// What the processor is told
// ---------------------------------------------------------------------------------------------

/// The processor is told of every header of a request, in order, under its name with its bytes, and
/// then of every pseudo header, in order, as text. It is told that the scheme is `http` exactly if
/// the request does not tell its scheme.
pub proof fn request_headers_are_told_in_order(
    headers: Seq<(String, Vec<u8>)>,
    pseudo: Seq<(HeaderOrPseudo, String)>,
    i: int,
)
    ensures
        ({
            let told = request_headers_of(headers, pseudo);
            let n = headers.len();
            let m = pseudo.len();
            let scheme = exists|j: int| 0 <= j < pseudo.len() && (#[trigger] pseudo[j]).0 is Scheme;
            &&& told.len() == n + m + (if scheme {
                0int
            } else {
                1
            })
            &&& 0 <= i < n ==> told[i] == (HeaderValueView {
                key: headers[i].0@,
                value: Seq::empty(),
                raw_value: headers[i].1@,
            })
            &&& 0 <= i < m ==> told[n + i].value == pseudo[i].1@ && told[n + i].raw_value == Seq::<
                u8,
            >::empty() && told[n + i].key == (match pseudo[i].0 {
                HeaderOrPseudo::Header(name) => name@,
                HeaderOrPseudo::Method => ":method"@,
                HeaderOrPseudo::Scheme => ":scheme"@,
                HeaderOrPseudo::Authority => ":authority"@,
                HeaderOrPseudo::Path => ":path"@,
                HeaderOrPseudo::Status => ":status"@,
            })
            &&& !scheme ==> told.last() == (HeaderValueView {
                key: ":scheme"@,
                value: "http"@,
                raw_value: Seq::empty(),
            })
        }),
{
}

/// Headers as bytes keep their order, names and bytes; headers as text keep theirs.
pub proof fn headers_are_told_as_they_are(
    raw: Seq<(String, Vec<u8>)>,
    plain: Seq<(Text, Text)>,
    i: int,
)
    ensures
        raw_headers(raw).len() == raw.len(),
        0 <= i < raw.len() ==> raw_headers(raw)[i] == (HeaderValueView {
            key: raw[i].0@,
            value: Seq::empty(),
            raw_value: raw[i].1@,
        }),
        text_headers(plain).len() == plain.len(),
        0 <= i < plain.len() ==> text_headers(plain)[i] == (HeaderValueView {
            key: plain[i].0,
            value: plain[i].1,
            raw_value: Seq::empty(),
        }),
{
}

/// The processor is told of the parts of a body in order: of data as it is and as not the end, of
/// trailers under their names, and at last of the end, which carries no data.
pub proof fn body_parts_are_told_in_order(frames: Seq<Frame>, i: int, j: int)
    ensures
        transcript(frames).len() == frames.len() + 1,
        transcript(frames).last() == (ToldView::Body { body: Seq::empty(), end_of_stream: true }),
        0 <= i < frames.len() ==> match frames[i] {
            Frame::Data(d) => transcript(frames)[i] == (ToldView::Body {
                body: d@,
                end_of_stream: false,
            }) && body_told(Some(frames[i])) == (ToldView::Body { body: d@, end_of_stream: false }),
            Frame::Trailers(t) => {
                &&& transcript(frames)[i] matches ToldView::Trailers { trailers } && {
                    &&& trailers.len() == t@.len()
                    &&& 0 <= j < t@.len() ==> trailers[j].key == t@[j].0@ && trailers[j].raw_value
                        == t@[j].1@
                }
                &&& body_told(Some(frames[i])) == transcript(frames)[i]
            },
        },
        body_told(None) == (ToldView::Body { body: Seq::empty(), end_of_stream: true }),
{
}

/// The text of a header value has the characters of its bytes, in order.
pub proof fn header_text_has_the_characters(bytes: Seq<u8>, i: int)
    ensures
        ascii_text(bytes).len() == bytes.len(),
        0 <= i < bytes.len() ==> ascii_text(bytes)[i] == bytes[i] as char,
{
}

// ---------------------------------------------------------------------------------------------
// The course of an exchange
// ---------------------------------------------------------------------------------------------

/// A request whose headers were sent awaits its answers, and has a body exactly if its headers did
/// not end it. One whose headers could not be sent goes on where failing open is allowed, and only
/// there the processor is skipped from then on; else it fails.
pub proof fn requests_start_by_what_was_sent(
    instance: ExtProcInstance,
    sent: bool,
    end_of_stream: bool,
)
    ensures
        ({
            let start = instance.request_start(sent, end_of_stream);
            let after = instance.after_request(sent);
            &&& sent ==> start == (Start::Await {
                had_body: !end_of_stream,
                edit: HeaderEdit::DropContentLength,
            }) && after.request_started && after.skipped == instance.skipped
            &&& !sent && instance.failure_mode == FailureMode::FailOpen ==> start is PassThrough
                && after.skipped && after.request_started == instance.request_started
            &&& !sent && instance.failure_mode == FailureMode::FailClosed ==> start == Start::Fail(
                Error::RequestSend,
            ) && after == instance
            &&& after.failure_mode == instance.failure_mode
            &&& after.channel == instance.channel
            &&& after.metadata_context == instance.metadata_context
            &&& after.req_attributes == instance.req_attributes
            &&& after.resp_attributes == instance.resp_attributes
            &&& after.response_started == instance.response_started
        }),
{
}

/// An answer about a request skips the processor from then on exactly if the request goes on
/// without it, and changes nothing else of the exchange.
pub proof fn only_going_on_without_the_processor_skips_it(instance: ExtProcInstance, step: Step)
    ensures
        instance.after_answer(step).skipped <==> instance.skipped || step is PassThrough,
        instance.after_answer(step) == (ExtProcInstance {
            skipped: instance.after_answer(step).skipped,
            ..instance
        }),
{
}

/// The processor is told of a response exactly if it was not skipped. Such a response awaits its
/// answers if its headers were sent, and has a body exactly if its headers did not end it; else it
/// fails, whatever the failure mode.
pub proof fn responses_start_by_what_was_sent(
    instance: ExtProcInstance,
    sent: bool,
    end_of_stream: bool,
)
    ensures
        ({
            let start = instance.response_start(sent, end_of_stream);
            let after = instance.after_response(sent);
            &&& instance.tells_response() <==> !instance.skipped
            &&& instance.skipped ==> start is PassThrough && after == instance
            &&& !instance.skipped && sent ==> start == (Start::Await {
                had_body: !end_of_stream,
                edit: HeaderEdit::DropContentLength,
            }) && after.response_started
            &&& !instance.skipped && !sent ==> start == Start::Fail(Error::RequestSend) && after
                == instance
            &&& after == (ExtProcInstance { response_started: after.response_started, ..instance })
        }),
{
}

/// A response is dealt with as its answers ask if the processor was told of it, and goes on as it
/// is if the processor was skipped.
pub proof fn responses_follow_their_answers(
    instance: ExtProcInstance,
    had_body: bool,
    presp: Option<ProcessingResponse>,
    step: Step,
)
    requires
        instance.response_step(had_body, presp, step),
    ensures
        instance.skipped ==> step is PassThrough,
        !instance.skipped ==> step_of(
            Side::Response,
            instance.failure_mode,
            had_body,
            presp,
            step,
        ),
{
}

/// The reply of a processor is what is decided; without a processor or without a reply nothing is.
pub proof fn replies_decide(
    ext_proc: Option<ExtProcInstance>,
    reply: Option<PolicyResponse>,
    r: PolicyResponse,
)
    requires
        decided(ext_proc, reply, r),
    ensures
        ext_proc is Some && reply is Some ==> Some(r) == reply,
        ext_proc is None || reply is None ==> r.direct_response is None && r.response_headers
            is None,
{
}

/// What is said of each error.
pub proof fn errors_say_what_went_wrong(e: Error)
    ensures
        match e {
            Error::RequestSend => e.text() == "failed to send request"@,
            Error::NoMoreResponses => e.text() == "no more response messages"@,
            Error::ResponseDropped => e.text() == "no more responses"@,
            Error::BodyBuffer(m) => e.text() == "failed to buffer body: "@ + m@,
            Error::MetadataConversion(m) => e.text() == "failed to convert metadata value: "@ + m@,
            Error::InvalidHeaderName(m) => e.text() == m@,
            Error::InvalidHeaderValue(m) => e.text() == m@,
        },
{
}

/// A fresh exchange is with the processor that is configured, by its policies and failure mode, and
/// nothing was sent or skipped yet.
pub proof fn fresh_exchanges_have_sent_nothing(
    instance: ExtProcInstance,
    target: Arc<SimpleBackendReference>,
    policies: Seq<BackendTrafficPolicy>,
    failure_mode: FailureMode,
)
    ensures
        instance.fresh(target, policies, failure_mode) <==> {
            &&& instance.failure_mode == failure_mode
            &&& instance.channel.target == target
            &&& instance.channel.policies@ == policies
            &&& !instance.skipped
            &&& !instance.request_started
            &&& !instance.response_started
        },
{
}

/// A router by an endpoint picker asks the picker that is configured, with its failure mode and
/// without policies, and uses its answer as is configured. An inactive router asks none.
pub proof fn routers_ask_their_picker(routing: InferenceRouting, r: InferencePoolRouter)
    ensures
        routing.routes(r) ==> r.destination_mode == routing.destination_mode && (r.ext_proc
            matches Some(p) && {
            &&& p.channel.target == routing.target
            &&& p.channel.policies@.len() == 0
            &&& p.failure_mode == routing.failure_mode
            &&& !p.skipped && !p.request_started && !p.response_started
            &&& p.metadata_context is None
            &&& p.req_attributes is None
            &&& p.resp_attributes is None
        }),
        InferencePoolRouter::inactive().ext_proc is None,
        InferencePoolRouter::inactive().destination_mode
            == InferenceRoutingDestinationMode::Validated,
{
}

/// The endpoint that served a request is told in one field of one namespace.
pub proof fn served_endpoint_is_told_in_one_field(metadata: Metadata, destination: Text)
    requires
        served_by(metadata, destination),
    ensures
        metadata.filter_metadata@.len() == 1,
        metadata.filter_metadata@[0].0@ == "envoy.lb"@,
        metadata.filter_metadata@[0].1@.len() == 1,
        metadata.filter_metadata@[0].1@[0].0@ == "x-gateway-destination-endpoint-served"@,
        *metadata.filter_metadata@[0].1@[0].1 matches Json::Text(t) && t@ == destination,
{
}

/// An answer can be dealt with unless it is an immediate reply whose status has not three digits;
/// a reply that names no status can.
pub proof fn replies_have_three_digits(response: Option<Response>)
    ensures
        !(response matches Some(Response::ImmediateResponse(_))) ==> replies(response),
        response matches Some(Response::ImmediateResponse(ir)) ==> {
            &&& ir.status is None ==> replies(response)
            &&& ir.status matches Some(code) ==> (100 <= code <= 999 ==> replies(response)) && (0
                <= code < 100 || 999 < code <= 65535 ==> !replies(response))
        },
{
}

/// Of a field that has no JSON form, its name and the reason are said.
pub proof fn bad_fields_are_named(key: Text, message: Text, i: int)
    ensures
        ({
            let said = bad_field_text(key, message);
            let front = "failed to convert key '"@;
            let between = "': "@;
            let n = front.len() as int;
            let m = between.len() as int;
            &&& said.len() == n + key.len() + m + message.len()
            &&& said.take(n) == front
            &&& said.subrange(n, n + key.len()) == key
            &&& said.subrange(n + key.len(), n + key.len() + m) == between
            &&& said.skip(n + key.len() + m) == message
        }),
{
}

/// The bytes of a header that can be read as text are the visible ones of ASCII, the space and the
/// tab.
pub proof fn headers_hold_visible_text(b: u8)
    ensures
        b == 9 || 32 <= b <= 126 ==> is_header_char(b),
        b < 9 || 9 < b < 32 || b >= 127 ==> !is_header_char(b),
{
}

/// What is seen of headers, of what the processor is told and of what an answer comes to is what
/// they hold.
pub proof fn exchanges_are_seen_as_they_are(h: HeaderValue, t: Told, handled: Handled, i: int)
    ensures
        h@.key == h.key@ && h@.value == h.value@ && h@.raw_value == h.raw_value@,
        handled@.metadata == handled.metadata,
        handled@.edits == handled.edits@,
        handled@.chunk == handled.chunk,
        handled@.headers_done == handled.headers_done,
        handled@.eos == handled.eos,
        match t {
            Told::Headers { headers, end_of_stream } => t@ matches ToldView::Headers {
                headers: hs,
                end_of_stream: eos,
            } && eos == end_of_stream && hs.len() == headers@.len() && (0 <= i < hs.len() ==> hs[i]
                == headers@[i]@),
            Told::Body { body, end_of_stream } => t@ == (ToldView::Body {
                body: body@,
                end_of_stream,
            }),
            Told::Trailers { trailers } => t@ matches ToldView::Trailers { trailers: ts }
                && ts.len() == trailers@.len() && (0 <= i < ts.len() ==> ts[i] == trailers@[i]@),
        },
{
}

} // verus!
