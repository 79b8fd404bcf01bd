//! The three envelopes of the protocol, each a sequence that starts with
//! its message type.

use crate::codec::{as_unsigned, unsigned_of};
use crate::wire::{items_content, Wire, WireValue};
use vstd::prelude::*;

verus! {

/// The message type of a request.
pub const REQUEST_MESSAGE: u64 = 0;

/// The message type of a response.
pub const RESPONSE_MESSAGE: u64 = 1;

/// The message type of a notification.
pub const NOTIFICATION_MESSAGE: u64 = 2;

/// What a frame is, mathematically: the view of [`Frame`].
pub enum FrameView {
    Request { id: u64, method: Seq<char>, params: Seq<Wire> },
    Response { id: u64, error: Wire, result: Wire },
    Notification { method: Seq<char>, params: Seq<Wire> },
    Unrecognised,
}

/// One frame read from the stream.
#[derive(Debug, PartialEq)]
pub enum Frame {
    Request { id: u64, method: String, params: Vec<WireValue> },
    Response { id: u64, error: WireValue, result: WireValue },
    Notification { method: String, params: Vec<WireValue> },
    /// Anything that is none of the three envelopes.
    Unrecognised,
}

impl View for Frame {
    type V = FrameView;

    open spec fn view(&self) -> FrameView {
        match self {
            Frame::Request { id, method, params } => FrameView::Request {
                id: *id,
                method: method@,
                params: items_content(params@),
            },
            Frame::Response { id, error, result } => FrameView::Response {
                id: *id,
                error: error@,
                result: result@,
            },
            Frame::Notification { method, params } => FrameView::Notification {
                method: method@,
                params: items_content(params@),
            },
            Frame::Unrecognised => FrameView::Unrecognised,
        }
    }
}

/// The frame of a request: message type, identifier, method, parameters.
pub open spec fn request_frame(id: u64, method: Seq<char>, params: Seq<Wire>) -> Wire {
    Wire::Array(
        seq![
            Wire::Int(REQUEST_MESSAGE as int),
            Wire::Int(id as int),
            Wire::Str(method),
            Wire::Array(params),
        ],
    )
}

/// The frame of a response: message type, identifier, error slot, result.
pub open spec fn response_frame(id: u64, error: Wire, result: Wire) -> Wire {
    Wire::Array(
        seq![Wire::Int(RESPONSE_MESSAGE as int), Wire::Int(id as int), error, result],
    )
}

/// Whether the items are those of a request.
pub open spec fn is_request(items: Seq<Wire>) -> bool {
    &&& items.len() >= 4
    &&& items[0] == Wire::Int(REQUEST_MESSAGE as int)
    &&& unsigned_of(items[1]) is Some
    &&& items[2] is Str
    &&& items[3] is Array
}

/// Whether the items are those of a response.
pub open spec fn is_response(items: Seq<Wire>) -> bool {
    &&& items.len() >= 4
    &&& items[0] == Wire::Int(RESPONSE_MESSAGE as int)
    &&& unsigned_of(items[1]) is Some
}

/// Whether the items are those of a notification.
pub open spec fn is_notification(items: Seq<Wire>) -> bool {
    &&& items.len() >= 3
    &&& items[0] == Wire::Int(NOTIFICATION_MESSAGE as int)
    &&& items[1] is Str
    &&& items[2] is Array
}

/// What a wire value is as a frame. Items after those of the envelope are
/// let pass.
pub open spec fn parsed(w: Wire) -> FrameView {
    match w {
        Wire::Array(items) => if is_request(items) {
            FrameView::Request {
                id: unsigned_of(items[1])->0,
                method: items[2]->Str_0,
                params: items[3]->Array_0,
            }
        } else if is_response(items) {
            FrameView::Response { id: unsigned_of(items[1])->0, error: items[2], result: items[3] }
        } else if is_notification(items) {
            FrameView::Notification { method: items[1]->Str_0, params: items[2]->Array_0 }
        } else {
            FrameView::Unrecognised
        },
        _ => FrameView::Unrecognised,
    }
}

/// The frame that asks for `method` with `params` under the identifier
/// `id`.
pub fn encode_request(id: u64, method: &str, params: Vec<WireValue>) -> (frame: WireValue)
    ensures
        frame@ == request_frame(id, method@, items_content(params@)),
{
    let mut items: Vec<WireValue> = Vec::new();
    items.push(WireValue::unsigned(REQUEST_MESSAGE));
    items.push(WireValue::unsigned(id));
    items.push(WireValue::text(method));
    items.push(WireValue::Array(params));
    assert(items_content(items@) =~= request_frame(
        id,
        method@,
        items_content(params@),
    )->Array_0);
    WireValue::Array(items)
}

/// The frame that answers the request `id`.
pub fn encode_response(id: u64, error: WireValue, result: WireValue) -> (frame: WireValue)
    ensures
        frame@ == response_frame(id, error@, result@),
{
    let mut items: Vec<WireValue> = Vec::new();
    items.push(WireValue::unsigned(RESPONSE_MESSAGE));
    items.push(WireValue::unsigned(id));
    items.push(error);
    items.push(result);
    assert(items_content(items@) =~= response_frame(id, error@, result@)->Array_0);
    WireValue::Array(items)
}

impl Frame {
    /// Reads a wire value as a frame.
    pub fn parse(value: WireValue) -> (frame: Frame)
        ensures
            frame@ == parsed(value@),
    {
        match value {
            WireValue::Array(items) => {
                let mut items = items;
                // The items as they came, before any is taken out.
                let ghost all = items_content(items@);
                if items.len() < 3 {
                    return Frame::Unrecognised;
                }
                let tag = as_unsigned(&items[0]);
                if tag == Some(NOTIFICATION_MESSAGE) {
                    let named = match &items[1] {
                        WireValue::Str(_) => true,
                        _ => false,
                    };
                    let listed = match &items[2] {
                        WireValue::Array(_) => true,
                        _ => false,
                    };
                    if !named || !listed {
                        return Frame::Unrecognised;
                    }
                    items.truncate(3);
                    let params = items.pop().unwrap();
                    let method = items.pop().unwrap();
                    match (method, params) {
                        (WireValue::Str(method), WireValue::Array(params)) => {
                            Frame::Notification { method, params }
                        },
                        _ => Frame::Unrecognised,
                    }
                } else if items.len() < 4 {
                    Frame::Unrecognised
                } else if tag == Some(RESPONSE_MESSAGE) {
                    match as_unsigned(&items[1]) {
                        None => Frame::Unrecognised,
                        Some(id) => {
                            items.truncate(4);
                            let result = items.pop().unwrap();
                            let error = items.pop().unwrap();
                            Frame::Response { id, error, result }
                        },
                    }
                } else if tag == Some(REQUEST_MESSAGE) {
                    let named = match &items[2] {
                        WireValue::Str(_) => true,
                        _ => false,
                    };
                    let listed = match &items[3] {
                        WireValue::Array(_) => true,
                        _ => false,
                    };
                    match as_unsigned(&items[1]) {
                        None => Frame::Unrecognised,
                        Some(id) => {
                            if !named || !listed {
                                return Frame::Unrecognised;
                            }
                            items.truncate(4);
                            let params = items.pop().unwrap();
                            let method = items.pop().unwrap();
                            match (method, params) {
                                (WireValue::Str(method), WireValue::Array(params)) => {
                                    Frame::Request { id, method, params }
                                },
                                _ => Frame::Unrecognised,
                            }
                        },
                    }
                } else {
                    Frame::Unrecognised
                }
            },
            _ => Frame::Unrecognised,
        }
    }
}

/// A request frame reads back as the request it was made from.
pub proof fn lemma_request_round_trip(id: u64, method: Seq<char>, params: Seq<Wire>)
    ensures
        parsed(request_frame(id, method, params)) == (FrameView::Request { id, method, params }),
{
}

/// A response frame reads back as the response it was made from.
pub proof fn lemma_response_round_trip(id: u64, error: Wire, result: Wire)
    ensures
        parsed(response_frame(id, error, result)) == (FrameView::Response { id, error, result }),
{
}

} // verus!
