use chromium_bridge::codec::CodecError;
use chromium_bridge::message::{CallMessage, CALL_HEADER_WIDTH};
use chromium_bridge::registry::FunctionRegistry;
use chromium_bridge::rendezvous::{
    eval_reply, frame_record, read_record, reply_record, script_result, Action, CallError,
    CallState, Event, RendezvousCall, ScriptResult,
};
use chromium_bridge::router::{
    attach_port, cefswt_function, cefswt_function_arg, cefswt_function_id, eval_request,
    function_call_request, route, FunctionSt, Operation, Route,
};
use chromium_bridge::value::{Kind, Value};

fn s(t: &str) -> String {
    t.to_string()
}

#[test]
fn arity_counts_written_arguments_for_any_header() {
    for header in [0usize, CALL_HEADER_WIDTH] {
        let mut m = CallMessage::new("function_call");
        m.write_arg(header, 0, &Value::Str(s("a")));
        m.write_arg(header, 1, &Value::Double(s("2")));
        assert_eq!(m.arity(header), 2);
        assert_eq!(m.slot_count(), header + 4);
    }
}

#[test]
fn arguments_read_back() {
    let mut m = CallMessage::new("function_call");
    m.write_arg(2, 0, &Value::Str(s("a")));
    m.write_arg(2, 1, &Value::Array(vec![Value::Bool(true)]));
    assert_eq!(m.get_int(2), Some(Kind::Str.tag()));
    assert_eq!(m.get_text(3).map(|t| t.as_str()), Some("a"));
    assert_eq!(m.get_int(4), Some(Kind::Array.tag()));
    match m.read_arg(2, 1) {
        Ok(Value::Array(items)) => assert!(matches!(items[0], Value::Bool(true))),
        other => panic!("unexpected {:?}", other),
    }
    assert_eq!(m.read_arg(2, 2).err(), Some(CodecError::MalformedEncoding));
    assert_eq!(m.read_arg(0, 0).err(), Some(CodecError::MalformedEncoding));
}

#[test]
fn slots_grow_with_empty_positions() {
    let mut m = CallMessage::new("x");
    m.set_text(3, "t");
    assert_eq!(m.slot_count(), 4);
    assert_eq!(m.get_int(0), None);
    assert_eq!(m.get_text(3).map(|t| t.as_str()), Some("t"));
    m.set_int(1, 7);
    assert_eq!(m.slot_count(), 4);
    assert_eq!(m.get_int(1), Some(7));
}

#[test]
fn operations_have_wire_names() {
    assert_eq!(Operation::Eval.name(), "eval");
    assert_eq!(Operation::Function.name(), "function");
    assert_eq!(Operation::FunctionCall.name(), "function_call");
    assert_eq!(Operation::from_name("function_call"), Some(Operation::FunctionCall));
    assert_eq!(Operation::from_name("functions"), None);
}

#[test]
fn router_dispatches_eval() {
    let mut m = eval_request(9, "1 + 1");
    attach_port(&mut m, 4321);
    match route(&m, true, true) {
        Route::Eval { port, call_id, source } => {
            assert_eq!(port, 4321);
            assert_eq!(call_id, 9);
            assert_eq!(source, "1 + 1");
        }
        other => panic!("unexpected {:?}", other),
    }
    assert!(route(&m, true, true).is_handled());
}

#[test]
fn router_dispatches_function_and_call() {
    let m = cefswt_function("foo", 3);
    match route(&m, true, true) {
        Route::Register { call_id, name } => {
            assert_eq!(call_id, 3);
            assert_eq!(name, "foo");
        }
        other => panic!("unexpected {:?}", other),
    }
    let mut c = function_call_request(3, &vec![Value::Null, Value::Str(s("z"))]);
    attach_port(&mut c, 80);
    match route(&c, true, true) {
        Route::Call { port, call_id, arity } => {
            assert_eq!((port, call_id, arity), (80, 3, 2));
        }
        other => panic!("unexpected {:?}", other),
    }
    assert_eq!(cefswt_function_id(&c, true), FunctionSt { id: 3, port: 80, args: 2 });
    match cefswt_function_arg(&c, 1) {
        Ok(Value::Str(t)) => assert_eq!(t, "z"),
        other => panic!("unexpected {:?}", other),
    }
}

#[test]
fn router_ignores_unknown_invalid_and_malformed() {
    let m = CallMessage::new("resize");
    assert!(!route(&m, true, true).is_handled());
    let mut e = eval_request(1, "x");
    attach_port(&mut e, 1);
    assert!(!route(&e, true, false).is_handled());
    assert!(!route(&e, false, true).is_handled());
    let unported = eval_request(1, "x");
    assert!(!route(&unported, true, true).is_handled());
    let mut bad_port = eval_request(1, "x");
    bad_port.set_int(0, 70000);
    assert!(!route(&bad_port, true, true).is_handled());
    assert_eq!(cefswt_function_id(&e, true), FunctionSt { id: -1, port: 0, args: 0 });
}

#[test]
fn replay_installs_in_order_and_dispatches() {
    let mut reg = FunctionRegistry::new();
    reg.register(1, "foo");
    reg.register(2, "bar");
    assert!(reg.context().is_none());
    reg.context_created(true);
    let ctx = reg.context().expect("live context");
    assert_eq!(ctx.len(), 2);
    assert_eq!((ctx.binding(0).call_id, ctx.binding(0).name.as_str()), (1, "foo"));
    assert_eq!((ctx.binding(1).call_id, ctx.binding(1).name.as_str()), (2, "bar"));
    assert_eq!(ctx.lookup("foo"), Some(1));
    let msg = ctx.invoke("foo", &vec![Value::Bool(true)]).expect("bound");
    assert_eq!(msg.name(), "function_call");
    assert_eq!(msg.get_int(1), Some(1));
    assert!(ctx.invoke("missing", &vec![]).is_none());
}

#[test]
fn only_the_main_frame_replays() {
    let mut reg = FunctionRegistry::new();
    reg.register(1, "foo");
    reg.context_created(false);
    assert!(reg.context().is_none());
    reg.context_created(true);
    reg.context_created(false);
    assert_eq!(reg.context().unwrap().lookup("foo"), Some(1));
}

#[test]
fn registration_after_context_is_installed_at_once() {
    let mut reg = FunctionRegistry::new();
    reg.register(1, "foo");
    reg.context_created(true);
    reg.register(5, "foo");
    reg.register(6, "baz");
    let ctx = reg.context().unwrap();
    assert_eq!(ctx.len(), 3);
    assert_eq!(ctx.lookup("foo"), Some(5));
    assert_eq!(ctx.lookup("baz"), Some(6));
    reg.context_created(true);
    let fresh = reg.context().unwrap();
    assert_eq!(fresh.len(), 3);
    assert_eq!(fresh.lookup("foo"), Some(5));
    assert_eq!(reg.len(), 3);
}

fn drive_to_reply(call: &mut RendezvousCall, port: u16, reply: Vec<u8>) {
    assert_eq!(call.next_action(), Action::Bind);
    call.step(Event::Bound { port });
    assert_eq!(call.message().get_int(0), Some(port as i32));
    assert_eq!(call.next_action(), Action::Send);
    call.step(Event::Sent);
    assert_eq!(call.next_action(), Action::Accept { port });
    call.step(read_record(&reply));
    assert_eq!(call.next_action(), Action::Release { port });
    call.step(Event::Released);
    assert_eq!(call.next_action(), Action::Finish);
}

#[test]
fn eval_call_delivers_the_reply() {
    let mut call = RendezvousCall::cefswt_eval(4, "[1, 'a']");
    let reply = reply_record(&Value::Array(vec![Value::Double(s("1")), Value::Str(s("a"))]));
    drive_to_reply(&mut call, 5000, reply);
    match call.finish() {
        Some(Ok(Value::Array(items))) => {
            assert_eq!(items.len(), 2);
            assert!(matches!(&items[1], Value::Str(t) if t == "a"));
        }
        other => panic!("unexpected {:?}", other),
    }
}

#[test]
fn script_exception_comes_back_as_error_value() {
    let mut call = RendezvousCall::cefswt_eval(4, "throw 1");
    drive_to_reply(&mut call, 5001, eval_reply(Err(s("Uncaught 1"))));
    match call.finish() {
        Some(Ok(Value::Error(m))) => assert_eq!(m, "Uncaught 1"),
        other => panic!("unexpected {:?}", other),
    }
}

#[test]
fn timed_out_call_releases_its_port() {
    let mut call = RendezvousCall::cefswt_eval(1, "while(true){}");
    call.step(Event::Bound { port: 40001 });
    call.step(Event::Sent);
    assert_eq!(call.next_action(), Action::Accept { port: 40001 });
    call.step(Event::TimedOut);
    assert_eq!(call.state(), CallState::Releasing { port: 40001 });
    assert_eq!(call.next_action(), Action::Release { port: 40001 });
    call.step(Event::Released);
    assert_eq!(call.state(), CallState::Done);
    assert!(matches!(call.finish(), Some(Err(CallError::TimedOut))));
}

#[test]
fn failures_are_terminal_and_release_the_listener() {
    let mut bind = RendezvousCall::cefswt_eval(1, "x");
    bind.step(Event::BindFailed);
    assert_eq!(bind.next_action(), Action::Finish);
    assert!(matches!(bind.finish(), Some(Err(CallError::ChannelError))));

    let mut send = RendezvousCall::cefswt_eval(1, "x");
    send.step(Event::Bound { port: 7 });
    send.step(Event::SendFailed);
    assert_eq!(send.next_action(), Action::Release { port: 7 });
    send.step(Event::Released);
    assert!(matches!(send.finish(), Some(Err(CallError::TransportUnavailable))));

    let mut short = RendezvousCall::cefswt_eval(1, "x");
    short.step(Event::Bound { port: 8 });
    short.step(Event::Sent);
    short.step(read_record(&vec![0, 0]));
    assert_eq!(short.next_action(), Action::Release { port: 8 });
    short.step(Event::Released);
    assert!(matches!(short.finish(), Some(Err(CallError::ChannelError))));

    let mut garbled = RendezvousCall::cefswt_eval(1, "x");
    garbled.step(Event::Bound { port: 9 });
    garbled.step(Event::Sent);
    garbled.step(read_record(&vec![0, 0, 0, 3, 0xff, 0xfe]));
    garbled.step(Event::Released);
    assert!(matches!(garbled.finish(), Some(Err(CallError::MalformedEncoding))));

    let mut bad = RendezvousCall::cefswt_eval(1, "x");
    bad.step(Event::Bound { port: 10 });
    bad.step(Event::Sent);
    bad.step(Event::Record { tag: 4, payload: s("\"'1,true;'0,'") });
    bad.step(Event::Released);
    assert!(matches!(bad.finish(), Some(Err(CallError::MalformedEncoding))));
}

#[test]
fn out_of_order_events_change_nothing() {
    let mut call = RendezvousCall::cefswt_eval(1, "x");
    call.step(Event::Released);
    call.step(Event::Sent);
    assert_eq!(call.state(), CallState::Idle);
    assert!(call.finish().is_none());
}

#[test]
fn many_calls_each_get_their_own_reply() {
    let n: u16 = 100;
    let mut calls: Vec<RendezvousCall> = (0..n)
        .map(|i| RendezvousCall::new(function_call_request(i as i32, &vec![])))
        .collect();
    for (i, c) in calls.iter_mut().enumerate() {
        c.step(Event::Bound { port: 20000 + i as u16 });
    }
    let mut ports: Vec<i32> = calls.iter().map(|c| c.message().get_int(0).unwrap()).collect();
    ports.sort();
    ports.dedup();
    assert_eq!(ports.len(), n as usize);
    for c in calls.iter_mut() {
        c.step(Event::Sent);
    }
    for (i, c) in calls.iter_mut().enumerate().rev() {
        let port = match c.next_action() {
            Action::Accept { port } => port,
            other => panic!("unexpected {:?}", other),
        };
        assert_eq!(port, 20000 + i as u16);
        c.step(read_record(&reply_record(&Value::Double(format!("{}", i)))));
        c.step(Event::Released);
    }
    for (i, c) in calls.into_iter().enumerate() {
        match c.finish() {
            Some(Ok(Value::Double(t))) => assert_eq!(t, format!("{}", i)),
            other => panic!("unexpected {:?}", other),
        }
    }
}

#[test]
fn record_framing_is_exact() {
    assert_eq!(frame_record(5, s("é")), vec![0, 0, 0, 5, 0xc3, 0xa9]);
    assert_eq!(frame_record(-1, s("")), vec![0xff, 0xff, 0xff, 0xff]);
    match read_record(&frame_record(258, s("x;y"))) {
        Event::Record { tag, payload } => {
            assert_eq!(tag, 258);
            assert_eq!(payload, "x;y");
        }
        other => panic!("unexpected {:?}", other),
    }
    assert_eq!(reply_record(&Value::Bool(true)), vec![0, 0, 0, 1, b'1']);
}

#[test]
fn outcomes_reach_script_code() {
    match script_result(Ok(Value::Str(s("v")))) {
        ScriptResult::Return(Value::Str(t)) => assert_eq!(t, "v"),
        other => panic!("unexpected {:?}", other),
    }
    match script_result(Ok(Value::Error(s("ReferenceError")))) {
        ScriptResult::Throw(m) => assert_eq!(m, "ReferenceError"),
        other => panic!("unexpected {:?}", other),
    }
    match script_result(Err(CallError::TimedOut)) {
        ScriptResult::Throw(m) => assert_eq!(m, "socket server panic"),
        other => panic!("unexpected {:?}", other),
    }
    assert_eq!(CallError::ChannelError.text(), "socket server panic");
    assert_eq!(CallError::TransportUnavailable.text(), "socket server panic");
    assert_eq!(CallError::MalformedEncoding.text(), "malformed reply");
}

#[test]
fn rejected_context_keeps_registrations() {
    let mut reg = FunctionRegistry::new();
    reg.register(1, "foo");
    reg.context_created(true);
    reg.context_rejected();
    assert!(reg.context().is_none());
    reg.register(2, "bar");
    assert_eq!(reg.len(), 2);
    reg.context_created(true);
    let ctx = reg.context().unwrap();
    assert_eq!(ctx.len(), 2);
    assert_eq!(ctx.lookup("bar"), Some(2));
}
