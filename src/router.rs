use vstd::prelude::*;

use crate::codec::{round_trips, CodecError};
use crate::message::{
    arg_at, arity_of, int_at, set_slot, tag_slot, text_at, with_arg, CallMessage, MessageModel,
    SlotModel, CALL_HEADER_WIDTH,
};
use crate::value::{models, Value, ValueModel};

verus! {

/// The operations that one process asks of the other.
#[derive(Clone, Copy, Debug, PartialEq, Eq, Structural)]
pub enum Operation {
    /// Evaluate script source; the result comes back through the rendezvous.
    Eval,
    /// Announce that a function name is routed to a call id; no reply.
    Function,
    /// Invoke the handler registered under a call id; the result comes back through the
    /// rendezvous.
    FunctionCall,
}

pub open spec fn operation_name(op: Operation) -> Seq<char> {
    match op {
        Operation::Eval => seq!['e', 'v', 'a', 'l'],
        Operation::Function => seq!['f', 'u', 'n', 'c', 't', 'i', 'o', 'n'],
        Operation::FunctionCall => seq![
            'f', 'u', 'n', 'c', 't', 'i', 'o', 'n', '_', 'c', 'a', 'l', 'l'
        ],
    }
}

/// The operation that a message name stands for, if any.
pub open spec fn operation_of(name: Seq<char>) -> Option<Operation> {
    if name == operation_name(Operation::Eval) {
        Some(Operation::Eval)
    } else if name == operation_name(Operation::Function) {
        Some(Operation::Function)
    } else if name == operation_name(Operation::FunctionCall) {
        Some(Operation::FunctionCall)
    } else {
        None
    }
}

/// Each operation's name stands for that operation.
pub proof fn lemma_operation_names(op: Operation)
    ensures
        operation_of(operation_name(op)) == Some(op),
{
    assert(operation_name(Operation::Eval).len() == 4);
    assert(operation_name(Operation::Function).len() == 8);
    assert(operation_name(Operation::FunctionCall).len() == 13);
}

impl Operation {
    pub fn name(&self) -> (r: &'static str)
        ensures
            r@ == operation_name(*self),
    {
        proof {
            reveal_strlit("eval");
            reveal_strlit("function");
            reveal_strlit("function_call");
        }
        match self {
            Operation::Eval => "eval",
            Operation::Function => "function",
            Operation::FunctionCall => "function_call",
        }
    }

    pub fn from_name(name: &str) -> (r: Option<Operation>)
        ensures
            r == operation_of(name@),
    {
        let n = name.to_owned();
        let eval = Operation::Eval.name().to_owned();
        let function = Operation::Function.name().to_owned();
        let function_call = Operation::FunctionCall.name().to_owned();
        if n == eval {
            Some(Operation::Eval)
        } else if n == function {
            Some(Operation::Function)
        } else if n == function_call {
            Some(Operation::FunctionCall)
        } else {
            None
        }
    }
}

// ---------------------------------------------------------------------------
// Outbound messages
// ---------------------------------------------------------------------------

/// The message after each value of `vs` is written as a logical argument, in order.
pub open spec fn args_written(m: MessageModel, header: int, vs: Seq<ValueModel>) -> MessageModel
    decreases vs.len(),
{
    if vs.len() == 0 {
        m
    } else {
        with_arg(
            args_written(m, header, vs.drop_last()),
            header,
            vs.len() - 1,
            vs.last(),
        )
    }
}

/// The `eval` request: slot 0 is left for the rendezvous port, then the call id and the
/// source text.
pub fn eval_request(call_id: i32, source: &str) -> (r: CallMessage)
    ensures
        r@.name == operation_name(Operation::Eval),
        r@.slots == seq![SlotModel::Empty, SlotModel::Int(call_id), SlotModel::Text(source@)],
{
    let mut m = CallMessage::new(Operation::Eval.name());
    m.set_int(1, call_id);
    m.set_text(2, source);
    assert(m@.slots =~= seq![SlotModel::Empty, SlotModel::Int(call_id), SlotModel::Text(source@)]);
    m
}

/// The `function` announcement: the call id, then the function name. It expects no reply.
pub fn cefswt_function(name: &str, call_id: i32) -> (r: CallMessage)
    ensures
        r@.name == operation_name(Operation::Function),
        r@.slots == seq![SlotModel::Int(call_id), SlotModel::Text(name@)],
{
    let mut m = CallMessage::new(Operation::Function.name());
    m.set_int(0, call_id);
    m.set_text(1, name);
    assert(m@.slots =~= seq![SlotModel::Int(call_id), SlotModel::Text(name@)]);
    m
}

/// The `function_call` request: slot 0 is left for the rendezvous port, slot 1 holds the
/// call id, and each argument follows as a (tag, payload) pair.
pub fn function_call_request(call_id: i32, args: &Vec<Value>) -> (r: CallMessage)
    requires
        2 * args.len() + 4 < usize::MAX,
    ensures
        r@ == args_written(
            MessageModel {
                name: operation_name(Operation::FunctionCall),
                slots: seq![SlotModel::Empty, SlotModel::Int(call_id)],
            },
            CALL_HEADER_WIDTH as int,
            models(args@),
        ),
{
    let mut m = CallMessage::new(Operation::FunctionCall.name());
    m.set_int(1, call_id);
    let ghost m0 = m@;
    assert(m0.slots =~= seq![SlotModel::Empty, SlotModel::Int(call_id)]);
    let ghost ms = models(args@);
    assert(ms.take(0) =~= Seq::<ValueModel>::empty());
    for i in 0..args.len()
        invariant
            2 * args.len() + 4 < usize::MAX,
            ms == models(args@),
            m@ == args_written(m0, CALL_HEADER_WIDTH as int, ms.take(i as int)),
    {
        m.write_arg(CALL_HEADER_WIDTH, i, &args[i]);
        assert(ms.take(i as int + 1).drop_last() =~= ms.take(i as int));
    }
    assert(ms.take(args.len() as int) =~= ms);
    m
}

/// Puts the rendezvous port into slot 0.
pub fn attach_port(m: &mut CallMessage, port: u16)
    ensures
        final(m)@.name == old(m)@.name,
        final(m)@.slots == set_slot(old(m)@.slots, 0, SlotModel::Int(port as i32)),
{
    m.set_int(0, port as i32);
}

proof fn lemma_set_slot_keeps(slots: Seq<SlotModel>, i: int, x: SlotModel, j: int)
    requires
        0 <= j < slots.len(),
        j != i,
        0 <= i,
    ensures
        set_slot(slots, i, x)[j] == slots[j],
        set_slot(slots, i, x).len() >= slots.len(),
{
}

/// After all arguments are written into a message that held only its header, the arity is
/// their number and each reads back as the value written.
pub proof fn lemma_args_read_back(m: MessageModel, header: nat, vs: Seq<ValueModel>)
    requires
        m.slots.len() <= header,
    ensures
        vs.len() > 0 ==> args_written(m, header as int, vs).slots.len() == header + 2 * vs.len(),
        arity_of(args_written(m, header as int, vs).slots.len() as int, header as int)
            == vs.len(),
        forall|i: int|
            0 <= i < vs.len() && round_trips(vs[i]) ==> arg_at(
                #[trigger] args_written(m, header as int, vs).slots,
                header as int,
                i,
            ) == Some(vs[i]),
    decreases vs.len(),
{
    if vs.len() > 0 {
        let prev = vs.drop_last();
        lemma_args_read_back(m, header, prev);
        let pm = args_written(m, header as int, prev);
        let n = (vs.len() - 1) as nat;
        assert(pm.slots.len() <= tag_slot(header as int, n as int));
        crate::message::lemma_arity_after_write(pm, header, n, vs.last());
        let fm = args_written(m, header as int, vs);
        assert(fm == with_arg(pm, header as int, n as int, vs.last()));
        let p = tag_slot(header as int, n as int);
        let s1 = set_slot(pm.slots, p, SlotModel::Int(crate::value::tag_of(crate::value::kind_of(vs.last())) as i32));
        assert(fm.slots.len() == header + 2 * vs.len());
        assert forall|i: int| 0 <= i < vs.len() && round_trips(vs[i]) implies arg_at(
            #[trigger] args_written(m, header as int, vs).slots,
            header as int,
            i,
        ) == Some(vs[i]) by {
            if i == n {
                crate::message::lemma_read_after_write(pm, header, n, vs.last());
            } else {
                assert(prev[i] == vs[i]);
                assert(arg_at(pm.slots, header as int, i) == Some(vs[i]));
                let q = tag_slot(header as int, i);
                lemma_set_slot_keeps(pm.slots, p, SlotModel::Int(crate::value::tag_of(crate::value::kind_of(vs.last())) as i32), q);
                lemma_set_slot_keeps(pm.slots, p, SlotModel::Int(crate::value::tag_of(crate::value::kind_of(vs.last())) as i32), q + 1);
                lemma_set_slot_keeps(s1, p + 1, SlotModel::Text(crate::codec::payload_of(vs.last())), q);
                lemma_set_slot_keeps(s1, p + 1, SlotModel::Text(crate::codec::payload_of(vs.last())), q + 1);
                assert(int_at(fm.slots, q) == int_at(pm.slots, q));
                assert(text_at(fm.slots, q + 1) == text_at(pm.slots, q + 1));
            }
        }
    }
}

// ---------------------------------------------------------------------------
// Inbound messages
// ---------------------------------------------------------------------------

/// What the receiving side is to do with one inbound message.
#[derive(Debug)]
pub enum Route {
    /// Evaluate `source` and send the outcome back to `port`.
    Eval { port: u16, call_id: i32, source: String },
    /// Route the function `name` to `call_id`.
    Register { call_id: i32, name: String },
    /// Invoke the handler of `call_id` with `arity` arguments and send the result to `port`.
    Call { port: u16, call_id: i32, arity: usize },
    /// Not for this router: unknown, invalid or malformed. Nothing is done.
    NotHandled,
}

pub enum RouteModel {
    Eval { port: u16, call_id: i32, source: Seq<char> },
    Register { call_id: i32, name: Seq<char> },
    Call { port: u16, call_id: i32, arity: int },
    NotHandled,
}

impl View for Route {
    type V = RouteModel;

    open spec fn view(&self) -> RouteModel {
        match self {
            Route::Eval { port, call_id, source } => RouteModel::Eval {
                port: *port,
                call_id: *call_id,
                source: source@,
            },
            Route::Register { call_id, name } => RouteModel::Register {
                call_id: *call_id,
                name: name@,
            },
            Route::Call { port, call_id, arity } => RouteModel::Call {
                port: *port,
                call_id: *call_id,
                arity: *arity as int,
            },
            Route::NotHandled => RouteModel::NotHandled,
        }
    }
}

/// The port in slot `i`, if it holds an integer that is a valid port number.
pub open spec fn port_at(slots: Seq<SlotModel>, i: int) -> Option<u16> {
    match int_at(slots, i) {
        Some(n) => if 0 <= n <= 65535 {
            Some(n as u16)
        } else {
            None
        },
        None => None,
    }
}

/// How an inbound message is dispatched: only a message that came from the peer process
/// and that the transport found valid is read; it goes by its name, and only when its fixed
/// slots have the layout that its operation requires.
pub open spec fn route_spec(m: MessageModel, from_peer: bool, valid: bool) -> RouteModel {
    if !from_peer || !valid {
        RouteModel::NotHandled
    } else {
        match operation_of(m.name) {
            Some(Operation::Eval) => match (
                port_at(m.slots, 0),
                int_at(m.slots, 1),
                text_at(m.slots, 2),
            ) {
                (Some(port), Some(call_id), Some(source)) => RouteModel::Eval {
                    port,
                    call_id,
                    source,
                },
                _ => RouteModel::NotHandled,
            },
            Some(Operation::Function) => match (int_at(m.slots, 0), text_at(m.slots, 1)) {
                (Some(call_id), Some(name)) => RouteModel::Register { call_id, name },
                _ => RouteModel::NotHandled,
            },
            Some(Operation::FunctionCall) => match (port_at(m.slots, 0), int_at(m.slots, 1)) {
                (Some(port), Some(call_id)) => RouteModel::Call {
                    port,
                    call_id,
                    arity: arity_of(m.slots.len() as int, CALL_HEADER_WIDTH as int),
                },
                _ => RouteModel::NotHandled,
            },
            None => RouteModel::NotHandled,
        }
    }
}

fn port_in(m: &CallMessage, i: usize) -> (r: Option<u16>)
    ensures
        r == port_at(m@.slots, i as int),
{
    match m.get_int(i) {
        Some(n) => if 0 <= n && n <= 65535 {
            Some(n as u16)
        } else {
            None
        },
        None => None,
    }
}

/// Classifies an inbound message. `from_peer` tells whether the message came from the peer
/// process; `valid` is the transport's own verdict on it. A message from elsewhere, or an
/// invalid one, is dropped before its name is read.
pub fn route(m: &CallMessage, from_peer: bool, valid: bool) -> (r: Route)
    ensures
        r@ == route_spec(m@, from_peer, valid),
{
    if !from_peer || !valid {
        return Route::NotHandled;
    }
    match Operation::from_name(m.name().as_str()) {
        Some(Operation::Eval) => match (port_in(m, 0), m.get_int(1), m.get_text(2)) {
            (Some(port), Some(call_id), Some(source)) => Route::Eval {
                port,
                call_id,
                source: source.clone(),
            },
            _ => Route::NotHandled,
        },
        Some(Operation::Function) => match (m.get_int(0), m.get_text(1)) {
            (Some(call_id), Some(name)) => Route::Register { call_id, name: name.clone() },
            _ => Route::NotHandled,
        },
        Some(Operation::FunctionCall) => match (port_in(m, 0), m.get_int(1)) {
            (Some(port), Some(call_id)) => Route::Call {
                port,
                call_id,
                arity: m.arity(CALL_HEADER_WIDTH),
            },
            _ => Route::NotHandled,
        },
        None => Route::NotHandled,
    }
}

impl Route {
    /// Whether the transport is told that the message was handled.
    pub fn is_handled(&self) -> (r: bool)
        ensures
            r == !(self@ is NotHandled),
    {
        match self {
            Route::NotHandled => false,
            _ => true,
        }
    }
}

/// The header of an inbound function call, as the control process reads it.
#[derive(Clone, Copy, Debug, PartialEq, Eq, Structural)]
pub struct FunctionSt {
    pub id: i32,
    pub port: i32,
    pub args: usize,
}

/// Reads the header of a `function_call` message: its call id, its rendezvous port and its
/// number of arguments. Any other message gives id -1, port 0 and no arguments.
pub fn cefswt_function_id(m: &CallMessage, valid: bool) -> (r: FunctionSt)
    ensures
        match route_spec(m@, true, valid) {
            RouteModel::Call { port, call_id, arity } => r == FunctionSt {
                id: call_id,
                port: port as i32,
                args: arity as usize,
            },
            _ => r == FunctionSt { id: -1i32, port: 0i32, args: 0usize },
        },
{
    match route(m, true, valid) {
        Route::Call { port, call_id, arity } => FunctionSt { id: call_id, port: port as i32, args: arity },
        _ => FunctionSt { id: -1, port: 0, args: 0 },
    }
}

/// Reads argument `index` of a `function_call` message.
pub fn cefswt_function_arg(m: &CallMessage, index: usize) -> (r: Result<Value, CodecError>)
    requires
        2 * index + 4 < usize::MAX,
    ensures
        match r {
            Ok(v) => arg_at(m@.slots, CALL_HEADER_WIDTH as int, index as int) == Some(v@),
            Err(e) => arg_at(m@.slots, CALL_HEADER_WIDTH as int, index as int) is None && e
                == CodecError::MalformedEncoding,
        },
{
    m.read_arg(CALL_HEADER_WIDTH, index)
}

/// The router reads back what the `eval` builder wrote, once the port is attached.
pub proof fn lemma_eval_routes(call_id: i32, source: Seq<char>, port: u16)
    ensures
        route_spec(
            MessageModel {
                name: operation_name(Operation::Eval),
                slots: set_slot(
                    seq![SlotModel::Empty, SlotModel::Int(call_id), SlotModel::Text(source)],
                    0,
                    SlotModel::Int(port as i32),
                ),
            },
            true,
            true,
        ) == (RouteModel::Eval { port, call_id, source }),
{
    lemma_operation_names(Operation::Eval);
}

/// The router reads back what the `function` builder wrote.
pub proof fn lemma_function_routes(call_id: i32, name: Seq<char>)
    ensures
        route_spec(
            MessageModel {
                name: operation_name(Operation::Function),
                slots: seq![SlotModel::Int(call_id), SlotModel::Text(name)],
            },
            true,
            true,
        ) == (RouteModel::Register { call_id, name }),
{
    lemma_operation_names(Operation::Function);
}

/// The router reads back a `function_call` request once its port is attached: the call id,
/// the port, and as many arguments as were written, each of which reads back as written.
pub proof fn lemma_function_call_routes(call_id: i32, vs: Seq<ValueModel>, port: u16)
    ensures
        ({
            let m = args_written(
                MessageModel {
                    name: operation_name(Operation::FunctionCall),
                    slots: seq![SlotModel::Empty, SlotModel::Int(call_id)],
                },
                CALL_HEADER_WIDTH as int,
                vs,
            );
            let sent = MessageModel {
                name: m.name,
                slots: set_slot(m.slots, 0, SlotModel::Int(port as i32)),
            };
            &&& route_spec(sent, true, true) == (RouteModel::Call {
                port,
                call_id,
                arity: vs.len() as int,
            })
            &&& forall|i: int|
                0 <= i < vs.len() && round_trips(vs[i]) ==> #[trigger] arg_at(
                    sent.slots,
                    CALL_HEADER_WIDTH as int,
                    i,
                ) == Some(vs[i])
        }),
{
    let m0 = MessageModel {
        name: operation_name(Operation::FunctionCall),
        slots: seq![SlotModel::Empty, SlotModel::Int(call_id)],
    };
    lemma_args_read_back(m0, CALL_HEADER_WIDTH as nat, vs);
    lemma_args_keep_header(m0, CALL_HEADER_WIDTH as int, vs);
    let m = args_written(m0, CALL_HEADER_WIDTH as int, vs);
    let sent_slots = set_slot(m.slots, 0, SlotModel::Int(port as i32));
    assert(m.slots.len() >= 2);
    assert(sent_slots =~= m.slots.update(0, SlotModel::Int(port as i32)));
    assert(int_at(sent_slots, 1) == Some(call_id));
    lemma_operation_names(Operation::FunctionCall);
    assert forall|i: int| 0 <= i < vs.len() && round_trips(vs[i]) implies #[trigger] arg_at(
        sent_slots,
        CALL_HEADER_WIDTH as int,
        i,
    ) == Some(vs[i]) by {
        assert(arg_at(m.slots, CALL_HEADER_WIDTH as int, i) == Some(vs[i]));
        assert(sent_slots[tag_slot(2, i)] == m.slots[tag_slot(2, i)]);
        assert(sent_slots[tag_slot(2, i) + 1] == m.slots[tag_slot(2, i) + 1]);
    }
}

/// Writing arguments leaves the name and the header slots as they were.
proof fn lemma_args_keep_header(m: MessageModel, header: int, vs: Seq<ValueModel>)
    requires
        header >= 0,
        m.slots.len() <= header,
    ensures
        args_written(m, header, vs).name == m.name,
        args_written(m, header, vs).slots.len() >= m.slots.len(),
        forall|j: int| 0 <= j < m.slots.len() ==> #[trigger] args_written(m, header, vs).slots[j]
            == m.slots[j],
    decreases vs.len(),
{
    if vs.len() > 0 {
        let prev = vs.drop_last();
        lemma_args_keep_header(m, header, prev);
        let pm = args_written(m, header, prev);
        let n = vs.len() - 1;
        let p = tag_slot(header, n);
        let x = SlotModel::Int(crate::value::tag_of(crate::value::kind_of(vs.last())) as i32);
        let s1 = set_slot(pm.slots, p, x);
        assert forall|j: int| 0 <= j < m.slots.len() implies #[trigger] args_written(
            m,
            header,
            vs,
        ).slots[j] == m.slots[j] by {
            lemma_set_slot_keeps(pm.slots, p, x, j);
            lemma_set_slot_keeps(s1, p + 1, SlotModel::Text(crate::codec::payload_of(vs.last())), j);
        }
    }
}

} // verus!
