use vstd::prelude::*;

use crate::message::{CallMessage, MessageModel, SlotModel, CALL_HEADER_WIDTH};
use crate::router::{args_written, function_call_request, operation_name, Operation};
use crate::value::{models, Value};

verus! {

/// A function exposed to script code: its name and the call id it dispatches to.
#[derive(Debug)]
pub struct Binding {
    pub call_id: i32,
    pub name: String,
}

impl View for Binding {
    type V = (i32, Seq<char>);

    open spec fn view(&self) -> (i32, Seq<char>) {
        (self.call_id, self.name@)
    }
}

pub open spec fn bindings_model(b: Seq<Binding>) -> Seq<(i32, Seq<char>)> {
    Seq::new(b.len(), |i: int| b[i]@)
}

/// The call id that `name` dispatches to: the binding installed last under that name wins.
pub open spec fn lookup_spec(b: Seq<(i32, Seq<char>)>, name: Seq<char>) -> Option<i32>
    decreases b.len(),
{
    if b.len() == 0 {
        None
    } else if b.last().1 == name {
        Some(b.last().0)
    } else {
        lookup_spec(b.drop_last(), name)
    }
}

/// The functions installed in one script execution context, in the order of installation.
#[derive(Debug)]
pub struct ScriptContext {
    bindings: Vec<Binding>,
}

impl View for ScriptContext {
    type V = Seq<(i32, Seq<char>)>;

    closed spec fn view(&self) -> Seq<(i32, Seq<char>)> {
        bindings_model(self.bindings@)
    }
}

fn copy_binding(b: &Binding) -> (r: Binding)
    ensures
        r@ == b@,
{
    Binding { call_id: b.call_id, name: b.name.clone() }
}

impl ScriptContext {
    /// A fresh context with nothing installed.
    pub fn new() -> (r: ScriptContext)
        ensures
            r@ == Seq::<(i32, Seq<char>)>::empty(),
    {
        let r = ScriptContext { bindings: Vec::new() };
        assert(r@ =~= Seq::<(i32, Seq<char>)>::empty());
        r
    }

    /// Installs a native callback for `call_id` under `name` in the global object.
    pub fn install(&mut self, call_id: i32, name: &str)
        ensures
            final(self)@ == old(self)@.push((call_id, name@)),
    {
        self.bindings.push(Binding { call_id, name: name.to_owned() });
        assert(self@ =~= old(self)@.push((call_id, name@)));
    }

    pub fn len(&self) -> (r: usize)
        ensures
            r == self@.len(),
    {
        self.bindings.len()
    }

    /// The binding installed `i`-th.
    pub fn binding(&self, i: usize) -> (r: &Binding)
        requires
            i < self@.len(),
        ensures
            r@ == self@[i as int],
    {
        &self.bindings[i]
    }

    /// The call id that script code reaches by calling `name`.
    pub fn lookup(&self, name: &str) -> (r: Option<i32>)
        ensures
            r == lookup_spec(self@, name@),
    {
        let target = name.to_owned();
        let mut k: usize = self.bindings.len();
        assert(self@.take(k as int) =~= self@);
        while k > 0
            invariant
                k <= self.bindings.len(),
                target@ == name@,
                lookup_spec(self@, name@) == lookup_spec(self@.take(k as int), name@),
            decreases k,
        {
            let ghost pre = self@.take(k as int);
            assert(pre.drop_last() =~= self@.take(k as int - 1));
            if self.bindings[k - 1].name == target {
                return Some(self.bindings[k - 1].call_id);
            }
            k = k - 1;
        }
        assert(self@.take(0) =~= Seq::<(i32, Seq<char>)>::empty());
        None
    }

    /// The `function_call` request that a script call of `name` with `args` sends, or `None`
    /// when nothing is installed under `name`.
    pub fn invoke(&self, name: &str, args: &Vec<Value>) -> (r: Option<CallMessage>)
        requires
            2 * args.len() + 4 < usize::MAX,
        ensures
            match lookup_spec(self@, name@) {
                None => r is None,
                Some(call_id) => r is Some && r->0@ == args_written(
                    MessageModel {
                        name: operation_name(Operation::FunctionCall),
                        slots: seq![SlotModel::Empty, SlotModel::Int(call_id)],
                    },
                    CALL_HEADER_WIDTH as int,
                    models(args@),
                ),
            },
    {
        match self.lookup(name) {
            None => None,
            Some(call_id) => Some(function_call_request(call_id, args)),
        }
    }
}

/// The process-wide record of exposed functions. It outlives script contexts: every
/// registration is replayed, in order, into each context created after it.
#[derive(Debug)]
pub struct FunctionRegistry {
    entries: Vec<Binding>,
    context: Option<ScriptContext>,
}

impl FunctionRegistry {
    /// The registrations, in the order in which they were made.
    pub closed spec fn registrations(&self) -> Seq<(i32, Seq<char>)> {
        bindings_model(self.entries@)
    }

    /// The bindings of the live context, if there is one.
    pub closed spec fn live(&self) -> Option<Seq<(i32, Seq<char>)>> {
        match self.context {
            Some(c) => Some(c@),
            None => None,
        }
    }

    /// A live context holds exactly the registrations, in their order.
    pub open spec fn wf(&self) -> bool {
        self.live() is Some ==> self.live()->0 == self.registrations()
    }

    pub fn new() -> (r: FunctionRegistry)
        ensures
            r.wf(),
            r.registrations() == Seq::<(i32, Seq<char>)>::empty(),
            r.live() is None,
    {
        let r = FunctionRegistry { entries: Vec::new(), context: None };
        assert(r.registrations() =~= Seq::<(i32, Seq<char>)>::empty());
        r
    }

    /// Records that `name` is routed to `call_id`; a live context gets the function at once.
    /// Registrations are never deduplicated.
    pub fn register(&mut self, call_id: i32, name: &str)
        requires
            old(self).wf(),
        ensures
            final(self).wf(),
            final(self).registrations() == old(self).registrations().push((call_id, name@)),
            final(self).live() is Some == old(self).live() is Some,
    {
        self.entries.push(Binding { call_id, name: name.to_owned() });
        assert(self.registrations() =~= old(self).registrations().push((call_id, name@)));
        match &mut self.context {
            Some(c) => {
                c.install(call_id, name);
            },
            None => {},
        }
    }

    /// The script engine made a fresh context. For the main frame, every registration is
    /// installed into it, once each, in the order in which it was made, and it becomes the
    /// live context; a context of any other frame is left alone.
    pub fn context_created(&mut self, is_main_frame: bool)
        requires
            old(self).wf(),
        ensures
            final(self).wf(),
            final(self).registrations() == old(self).registrations(),
            is_main_frame ==> final(self).live() == Some(old(self).registrations()),
            !is_main_frame ==> final(self).live() == old(self).live(),
    {
        if !is_main_frame {
            return;
        }
        let mut ctx = ScriptContext::new();
        let ghost regs = self.registrations();
        for i in 0..self.entries.len()
            invariant
                regs == self.registrations(),
                ctx@ == regs.take(i as int),
        {
            let b = &self.entries[i];
            ctx.install(b.call_id, b.name.as_str());
            assert(ctx@ =~= regs.take(i as int + 1));
        }
        assert(regs.take(self.entries.len() as int) =~= regs);
        self.context = Some(ctx);
    }

    /// The script engine refused to install a function into the live context: that context
    /// is given up, and no later registration is installed into it. The registrations stay,
    /// for the next context.
    pub fn context_rejected(&mut self)
        requires
            old(self).wf(),
        ensures
            final(self).wf(),
            final(self).registrations() == old(self).registrations(),
            final(self).live() is None,
    {
        self.context = None;
    }

    /// The live context, if the script engine has made one.
    pub fn context(&self) -> (r: Option<&ScriptContext>)
        ensures
            match r {
                Some(c) => self.live() == Some(c@),
                None => self.live() is None,
            },
    {
        match &self.context {
            Some(c) => Some(c),
            None => None,
        }
    }

    pub fn len(&self) -> (r: usize)
        ensures
            r == self.registrations().len(),
    {
        self.entries.len()
    }
}

/// In a well-formed registry, a name reaches in the live context the same call id that the
/// registrations give it, whether it was registered before or after the context was made.
pub proof fn lemma_live_dispatch(r: FunctionRegistry, name: Seq<char>)
    requires
        r.wf(),
        r.live() is Some,
    ensures
        lookup_spec(r.live()->0, name) == lookup_spec(r.registrations(), name),
{
}

} // verus!
