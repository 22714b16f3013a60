use vstd::prelude::*;

use crate::codec::{decode, decode_spec, encode, payload_of, round_trips};
use crate::text::{utf8_bytes, utf8_text};
use crate::value::{kind_of, tag_of, Kind};
use vstd::utf8::{decode_utf8, encode_utf8, valid_utf8};
use crate::message::{set_slot, CallMessage, MessageModel, SlotModel};
use crate::router::{attach_port, eval_request, operation_name, Operation};
use crate::value::{Value, ValueModel};

verus! {

/// Why a blocking call ended without a value.
#[derive(Clone, Copy, Debug, PartialEq, Eq, Structural)]
pub enum CallError {
    /// The reply did not decode.
    MalformedEncoding,
    /// The one-way message could not be handed to the transport.
    TransportUnavailable,
    /// The listener could not be bound, or the connection failed before a full record.
    ChannelError,
    /// A deadline set by the caller passed before a reply arrived.
    TimedOut,
}

/// Where one blocking call stands.
#[derive(Clone, Copy, Debug, PartialEq, Eq, Structural)]
pub enum CallState {
    /// Nothing acquired yet.
    Idle,
    /// A loopback listener holds `port`; the message carries it and is ready to send.
    ListenerBound { port: u16 },
    /// The message is sent; one inbound connection on `port` is awaited.
    AwaitingConnection { port: u16 },
    /// The outcome is known; the listener on `port` is still to be released.
    Releasing { port: u16 },
    /// The listener is released and the outcome can be taken.
    Done,
}

/// What happened outside since the last step.
#[derive(Debug)]
pub enum Event {
    Bound { port: u16 },
    BindFailed,
    Sent,
    SendFailed,
    /// The peer wrote one record and closed the connection.
    Record { tag: i32, payload: String },
    ConnectionFailed,
    /// The peer's record is not valid UTF-8 text.
    Garbled,
    TimedOut,
    Released,
}

pub enum EventModel {
    Bound { port: u16 },
    BindFailed,
    Sent,
    SendFailed,
    Record { tag: i32, payload: Seq<char> },
    ConnectionFailed,
    Garbled,
    TimedOut,
    Released,
}

impl View for Event {
    type V = EventModel;

    open spec fn view(&self) -> EventModel {
        match self {
            Event::Bound { port } => EventModel::Bound { port: *port },
            Event::BindFailed => EventModel::BindFailed,
            Event::Sent => EventModel::Sent,
            Event::SendFailed => EventModel::SendFailed,
            Event::Record { tag, payload } => EventModel::Record { tag: *tag, payload: payload@ },
            Event::ConnectionFailed => EventModel::ConnectionFailed,
            Event::Garbled => EventModel::Garbled,
            Event::TimedOut => EventModel::TimedOut,
            Event::Released => EventModel::Released,
        }
    }
}

/// What the driver of a call is to do next.
#[derive(Clone, Copy, Debug, PartialEq, Eq, Structural)]
pub enum Action {
    /// Bind a loopback listener to a port that the system picks.
    Bind,
    /// Hand the message to the one-way transport.
    Send,
    /// Block until one connection arrives on `port` and read its record to the end.
    Accept { port: u16 },
    /// Close the listener on `port`.
    Release { port: u16 },
    /// Take the outcome.
    Finish,
}

pub open spec fn action_of(s: CallState) -> Action {
    match s {
        CallState::Idle => Action::Bind,
        CallState::ListenerBound { port } => Action::Send,
        CallState::AwaitingConnection { port } => Action::Accept { port },
        CallState::Releasing { port } => Action::Release { port },
        CallState::Done => Action::Finish,
    }
}

/// The state after an event; an event that does not fit the state changes nothing.
pub open spec fn next_state(s: CallState, e: EventModel) -> CallState {
    match (s, e) {
        (CallState::Idle, EventModel::Bound { port }) => CallState::ListenerBound { port },
        (CallState::Idle, EventModel::BindFailed) => CallState::Done,
        (CallState::ListenerBound { port }, EventModel::Sent) => CallState::AwaitingConnection {
            port,
        },
        (CallState::ListenerBound { port }, EventModel::SendFailed) => CallState::Releasing {
            port,
        },
        (CallState::AwaitingConnection { port }, EventModel::Record { .. }) => CallState::Releasing {
            port,
        },
        (CallState::AwaitingConnection { port }, EventModel::ConnectionFailed) => CallState::Releasing {
            port,
        },
        (CallState::AwaitingConnection { port }, EventModel::Garbled) => CallState::Releasing {
            port,
        },
        (CallState::AwaitingConnection { port }, EventModel::TimedOut) => CallState::Releasing {
            port,
        },
        (CallState::Releasing { port }, EventModel::Released) => CallState::Done,
        _ => s,
    }
}

/// The outcome that an event settles, if it settles one in this state.
pub open spec fn outcome_of(s: CallState, e: EventModel) -> Option<Result<ValueModel, CallError>> {
    match (s, e) {
        (CallState::Idle, EventModel::BindFailed) => Some(Err(CallError::ChannelError)),
        (CallState::ListenerBound { .. }, EventModel::SendFailed) => Some(
            Err(CallError::TransportUnavailable),
        ),
        (CallState::AwaitingConnection { .. }, EventModel::Record { tag, payload }) => match decode_spec(
            tag as int,
            payload,
        ) {
            Some(v) => Some(Ok(v)),
            None => Some(Err(CallError::MalformedEncoding)),
        },
        (CallState::AwaitingConnection { .. }, EventModel::ConnectionFailed) => Some(
            Err(CallError::ChannelError),
        ),
        (CallState::AwaitingConnection { .. }, EventModel::Garbled) => Some(
            Err(CallError::MalformedEncoding),
        ),
        (CallState::AwaitingConnection { .. }, EventModel::TimedOut) => Some(
            Err(CallError::TimedOut),
        ),
        _ => None,
    }
}

/// The states in which the call owns a bound listener.
pub open spec fn holds_listener(s: CallState) -> bool {
    s is ListenerBound || s is AwaitingConnection || s is Releasing
}

pub open spec fn port_of(s: CallState) -> u16 {
    match s {
        CallState::ListenerBound { port } => port,
        CallState::AwaitingConnection { port } => port,
        CallState::Releasing { port } => port,
        _ => 0,
    }
}

/// The listener is released on every path out of a call: a call that owns a listener can
/// only give it up by a `Release` of its own port followed by `Released`, it keeps the same
/// port until then, and no outcome can be taken while it owns one.
pub proof fn lemma_listener_released(s: CallState, e: EventModel)
    ensures
        holds_listener(s) && !holds_listener(next_state(s, e)) ==> action_of(s) == (Action::Release {
            port: port_of(s),
        }) && e is Released && next_state(s, e) == CallState::Done,
        holds_listener(s) && holds_listener(next_state(s, e)) ==> port_of(next_state(s, e))
            == port_of(s),
        action_of(s) == Action::Finish ==> !holds_listener(s),
        holds_listener(s) && e is TimedOut ==> (s is AwaitingConnection ==> next_state(s, e)
            == (CallState::Releasing { port: port_of(s) })),
{
}

/// An event settles an outcome only where the call then releases its listener, or where no
/// listener was ever bound; once releasing or done, no event settles another outcome.
pub proof fn lemma_outcome_once(s: CallState, e: EventModel)
    ensures
        outcome_of(s, e) is Some ==> (next_state(s, e) is Releasing || (s is Idle
            && next_state(s, e) is Done)),
        (s is Releasing || s is Done) ==> outcome_of(s, e) is None,
{
}

/// The text of the exception that script code sees when a call fails: a reply that does
/// not decode is named as such, and every failure of the rendezvous itself raises
/// `socket server panic`.
pub open spec fn call_error_text(e: CallError) -> Seq<char> {
    match e {
        CallError::MalformedEncoding => "malformed reply"@,
        _ => "socket server panic"@,
    }
}

impl CallError {
    pub fn text(&self) -> (r: &'static str)
        ensures
            r@ == call_error_text(*self),
    {
        match self {
            CallError::MalformedEncoding => "malformed reply",
            _ => "socket server panic",
        }
    }
}

/// What a native callback hands back to script code.
#[derive(Debug)]
pub enum ScriptResult {
    /// The call's value is returned.
    Return(Value),
    /// An exception with this message is raised.
    Throw(String),
}

pub enum ScriptResultModel {
    Return(ValueModel),
    Throw(Seq<char>),
}

impl View for ScriptResult {
    type V = ScriptResultModel;

    open spec fn view(&self) -> ScriptResultModel {
        match self {
            ScriptResult::Return(v) => ScriptResultModel::Return(v@),
            ScriptResult::Throw(m) => ScriptResultModel::Throw(m@),
        }
    }
}

/// How the outcome of a call reaches script code: an error value is re-raised as an
/// exception with its message, a failed call raises one that names the failure, and any
/// other value is returned.
pub open spec fn script_result_of(o: Result<ValueModel, CallError>) -> ScriptResultModel {
    match o {
        Ok(ValueModel::Error(m)) => ScriptResultModel::Throw(m),
        Ok(v) => ScriptResultModel::Return(v),
        Err(e) => ScriptResultModel::Throw(call_error_text(e)),
    }
}

pub fn script_result(outcome: Result<Value, CallError>) -> (r: ScriptResult)
    ensures
        r@ == script_result_of(match outcome {
            Ok(v) => Ok(v@),
            Err(e) => Err(e),
        }),
{
    match outcome {
        Ok(Value::Error(m)) => ScriptResult::Throw(m),
        Ok(v) => ScriptResult::Return(v),
        Err(e) => ScriptResult::Throw(e.text().to_owned()),
    }
}

/// One blocking call across the one-way channel.
#[derive(Debug)]
pub struct RendezvousCall {
    state: CallState,
    message: CallMessage,
    outcome: Option<Result<Value, CallError>>,
}

pub open spec fn outcome_model(o: Option<Result<Value, CallError>>) -> Option<
    Result<ValueModel, CallError>,
> {
    match o {
        None => None,
        Some(Ok(v)) => Some(Ok(v@)),
        Some(Err(e)) => Some(Err(e)),
    }
}

impl RendezvousCall {
    pub closed spec fn state_spec(&self) -> CallState {
        self.state
    }

    pub closed spec fn message_spec(&self) -> MessageModel {
        self.message@
    }

    pub closed spec fn outcome_spec(&self) -> Option<Result<ValueModel, CallError>> {
        outcome_model(self.outcome)
    }

    /// An outcome is held exactly when the call is releasing or done.
    pub open spec fn wf(&self) -> bool {
        self.outcome_spec() is Some <==> (self.state_spec() is Releasing
            || self.state_spec() is Done)
    }

    /// A call that will send `message` and wait for its reply.
    pub fn new(message: CallMessage) -> (r: RendezvousCall)
        ensures
            r.wf(),
            r.state_spec() == CallState::Idle,
            r.message_spec() == message@,
    {
        RendezvousCall { state: CallState::Idle, message, outcome: None }
    }

    pub fn state(&self) -> (r: CallState)
        ensures
            r == self.state_spec(),
    {
        self.state
    }

    /// The message to send; once a listener is bound, slot 0 holds its port.
    pub fn message(&self) -> (r: &CallMessage)
        ensures
            r@ == self.message_spec(),
    {
        &self.message
    }

    pub fn next_action(&self) -> (r: Action)
        ensures
            r == action_of(self.state_spec()),
    {
        match self.state {
            CallState::Idle => Action::Bind,
            CallState::ListenerBound { .. } => Action::Send,
            CallState::AwaitingConnection { port } => Action::Accept { port },
            CallState::Releasing { port } => Action::Release { port },
            CallState::Done => Action::Finish,
        }
    }

    /// Advances the call by one event.
    pub fn step(&mut self, e: Event)
        requires
            old(self).wf(),
        ensures
            final(self).wf(),
            final(self).state_spec() == next_state(old(self).state_spec(), e@),
            final(self).outcome_spec() == match outcome_of(old(self).state_spec(), e@) {
                Some(o) => Some(o),
                None => old(self).outcome_spec(),
            },
            final(self).message_spec() == match (old(self).state_spec(), e@) {
                (CallState::Idle, EventModel::Bound { port }) => MessageModel {
                    name: old(self).message_spec().name,
                    slots: set_slot(
                        old(self).message_spec().slots,
                        0,
                        SlotModel::Int(port as i32),
                    ),
                },
                _ => old(self).message_spec(),
            },
    {
        match (self.state, e) {
            (CallState::Idle, Event::Bound { port }) => {
                attach_port(&mut self.message, port);
                self.state = CallState::ListenerBound { port };
            },
            (CallState::Idle, Event::BindFailed) => {
                self.outcome = Some(Err(CallError::ChannelError));
                self.state = CallState::Done;
            },
            (CallState::ListenerBound { port }, Event::Sent) => {
                self.state = CallState::AwaitingConnection { port };
            },
            (CallState::ListenerBound { port }, Event::SendFailed) => {
                self.outcome = Some(Err(CallError::TransportUnavailable));
                self.state = CallState::Releasing { port };
            },
            (CallState::AwaitingConnection { port }, Event::Record { tag, payload }) => {
                let decoded = match decode(tag, payload.as_str()) {
                    Ok(v) => Ok(v),
                    Err(_) => Err(CallError::MalformedEncoding),
                };
                self.outcome = Some(decoded);
                self.state = CallState::Releasing { port };
            },
            (CallState::AwaitingConnection { port }, Event::ConnectionFailed) => {
                self.outcome = Some(Err(CallError::ChannelError));
                self.state = CallState::Releasing { port };
            },
            (CallState::AwaitingConnection { port }, Event::Garbled) => {
                self.outcome = Some(Err(CallError::MalformedEncoding));
                self.state = CallState::Releasing { port };
            },
            (CallState::AwaitingConnection { port }, Event::TimedOut) => {
                self.outcome = Some(Err(CallError::TimedOut));
                self.state = CallState::Releasing { port };
            },
            (CallState::Releasing { .. }, Event::Released) => {
                self.state = CallState::Done;
            },
            _ => {},
        }
    }

    /// The blocking `eval` call: it asks the script process to evaluate `source`.
    pub fn cefswt_eval(call_id: i32, source: &str) -> (r: RendezvousCall)
        ensures
            r.wf(),
            r.state_spec() == CallState::Idle,
            r.message_spec().name == operation_name(Operation::Eval),
            r.message_spec().slots == seq![
                SlotModel::Empty,
                SlotModel::Int(call_id),
                SlotModel::Text(source@),
            ],
    {
        RendezvousCall::new(eval_request(call_id, source))
    }

    /// The outcome, once the call is done and its listener released; `None` before that.
    pub fn finish(self) -> (r: Option<Result<Value, CallError>>)
        requires
            self.wf(),
        ensures
            self.state_spec() is Done ==> outcome_model(r) == self.outcome_spec() && r is Some,
            !(self.state_spec() is Done) ==> r is None,
    {
        match self.state {
            CallState::Done => self.outcome,
            _ => None,
        }
    }
}

// ---------------------------------------------------------------------------
// The reply record
// ---------------------------------------------------------------------------

/// The kind tag as four bytes, most significant first.
pub open spec fn tag_bytes(t: i32) -> Seq<u8> {
    let u = #[verifier::truncate] (t as u32);
    seq![(u >> 24u32) as u8, (u >> 16u32) as u8, (u >> 8u32) as u8, u as u8]
}

/// The integer that four bytes, most significant first, write.
pub open spec fn tag_from_bytes(b0: u8, b1: u8, b2: u8, b3: u8) -> i32 {
    #[verifier::truncate] (((b0 as u32) << 24u32 | (b1 as u32) << 16u32 | (b2 as u32) << 8u32
        | b3 as u32) as i32)
}

/// The record that a responder writes before it closes the connection: the tag, then the
/// payload as UTF-8.
pub open spec fn record_of(tag: i32, payload: Seq<char>) -> Seq<u8> {
    tag_bytes(tag) + encode_utf8(payload)
}

/// The event that a record read to the end of its connection makes.
pub open spec fn record_event(b: Seq<u8>) -> EventModel {
    if b.len() < 4 {
        EventModel::ConnectionFailed
    } else if valid_utf8(b.subrange(4, b.len() as int)) {
        EventModel::Record {
            tag: tag_from_bytes(b[0], b[1], b[2], b[3]),
            payload: decode_utf8(b.subrange(4, b.len() as int)),
        }
    } else {
        EventModel::Garbled
    }
}

/// Frames a reply record.
pub fn frame_record(tag: i32, payload: String) -> (r: Vec<u8>)
    ensures
        r@ == record_of(tag, payload@),
{
    let u = tag as u32;
    let mut r: Vec<u8> = Vec::new();
    r.push((u >> 24u32) as u8);
    r.push((u >> 16u32) as u8);
    r.push((u >> 8u32) as u8);
    r.push(u as u8);
    let body = utf8_bytes(payload.as_str());
    let ghost head = r@;
    let mut k: usize = 0;
    while k < body.len()
        invariant
            k <= body.len(),
            r@ == head + body@.take(k as int),
        decreases body.len() - k,
    {
        r.push(body[k]);
        k = k + 1;
        assert(r@ =~= head + body@.take(k as int));
    }
    assert(body@.take(body.len() as int) =~= body@);
    assert(head =~= tag_bytes(tag));
    r
}

/// Frames the reply that carries a value: its kind tag and its encoding.
pub fn reply_record(v: &Value) -> (r: Vec<u8>)
    ensures
        r@ == record_of(tag_of(kind_of(v@)) as i32, payload_of(v@)),
{
    let (kind, text) = encode(v);
    frame_record(kind.tag(), text)
}

/// The reply to an `eval`: the value, or the message of the exception that the evaluation
/// raised, carried as an error value.
pub fn eval_reply(outcome: Result<Value, String>) -> (r: Vec<u8>)
    ensures
        match outcome {
            Ok(v) => r@ == record_of(tag_of(kind_of(v@)) as i32, payload_of(v@)),
            Err(m) => r@ == record_of(tag_of(Kind::Error) as i32, m@),
        },
{
    match outcome {
        Ok(v) => reply_record(&v),
        Err(m) => reply_record(&Value::Error(m)),
    }
}

/// Reads a record that arrived whole: too short is a failed connection, a payload that is
/// not UTF-8 is garbled.
pub fn read_record(b: &Vec<u8>) -> (r: Event)
    ensures
        r@ == record_event(b@),
{
    if b.len() < 4 {
        return Event::ConnectionFailed;
    }
    let tag = ((b[0] as u32) << 24u32 | (b[1] as u32) << 16u32 | (b[2] as u32) << 8u32
        | b[3] as u32) as i32;
    let mut rest: Vec<u8> = Vec::new();
    let mut k: usize = 4;
    while k < b.len()
        invariant
            4 <= k <= b.len(),
            rest@ == b@.subrange(4, k as int),
        decreases b.len() - k,
    {
        rest.push(b[k]);
        k = k + 1;
        assert(rest@ =~= b@.subrange(4, k as int));
    }
    match utf8_text(rest) {
        Some(payload) => Event::Record { tag, payload },
        None => Event::Garbled,
    }
}

proof fn lemma_tag_bytes(t: i32)
    ensures
        tag_from_bytes(tag_bytes(t)[0], tag_bytes(t)[1], tag_bytes(t)[2], tag_bytes(t)[3]) == t,
{
    let u = #[verifier::truncate] (t as u32);
    assert((#[verifier::truncate] (t as u32)) as i32 == t) by (bit_vector);
    assert((((u >> 24u32) as u8) as u32) << 24u32 | (((u >> 16u32) as u8) as u32) << 16u32 | (((
    u >> 8u32) as u8) as u32) << 8u32 | ((u as u8) as u32) == u) by (bit_vector);
}

/// A framed record reads back as the tag and payload that were framed.
pub proof fn lemma_record_round_trip(tag: i32, payload: Seq<char>)
    ensures
        record_event(record_of(tag, payload)) == (EventModel::Record { tag, payload }),
{
    let b = record_of(tag, payload);
    assert(b.subrange(4, b.len() as int) =~= encode_utf8(payload));
    vstd::utf8::encode_utf8_valid_utf8(payload);
    vstd::utf8::encode_utf8_decode_utf8(payload);
    lemma_tag_bytes(tag);
}

/// A call that awaits its reply settles exactly the value that its responder framed, and
/// goes on to release its own port.
pub proof fn lemma_reply_delivered(port: u16, v: ValueModel)
    requires
        round_trips(v),
    ensures
        ({
            let e = record_event(record_of(tag_of(kind_of(v)) as i32, payload_of(v)));
            &&& outcome_of(CallState::AwaitingConnection { port }, e) == Some(
                Ok::<ValueModel, CallError>(v),
            )
            &&& next_state(CallState::AwaitingConnection { port }, e) == (CallState::Releasing {
                port,
            })
        }),
{
    lemma_record_round_trip(tag_of(kind_of(v)) as i32, payload_of(v));
    crate::codec::lemma_round_trip(v);
}

} // verus!
