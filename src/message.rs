use vstd::prelude::*;

use crate::codec::{decode, decode_spec, encode, payload_of, round_trips, CodecError};
use crate::value::{kind_of, tag_of, Value, ValueModel};

verus! {

/// Physical slots that a call carries before its arguments: the rendezvous port and the call id.
pub const CALL_HEADER_WIDTH: usize = 2;

/// One position of a message's argument list.
#[derive(Debug)]
pub enum Slot {
    Empty,
    Int(i32),
    Text(String),
}

pub enum SlotModel {
    Empty,
    Int(i32),
    Text(Seq<char>),
}

impl View for Slot {
    type V = SlotModel;

    open spec fn view(&self) -> SlotModel {
        match self {
            Slot::Empty => SlotModel::Empty,
            Slot::Int(n) => SlotModel::Int(*n),
            Slot::Text(t) => SlotModel::Text(t@),
        }
    }
}

/// A one-way message: an operation name and an ordered argument list.
#[derive(Debug)]
pub struct CallMessage {
    name: String,
    slots: Vec<Slot>,
}

pub struct MessageModel {
    pub name: Seq<char>,
    pub slots: Seq<SlotModel>,
}

impl View for CallMessage {
    type V = MessageModel;

    closed spec fn view(&self) -> MessageModel {
        MessageModel {
            name: self.name@,
            slots: Seq::new(self.slots.len() as nat, |i: int| self.slots[i]@),
        }
    }
}

/// The list after slot `i` is set to `x`; a list too short grows with empty slots.
pub open spec fn set_slot(slots: Seq<SlotModel>, i: int, x: SlotModel) -> Seq<SlotModel> {
    if i < slots.len() {
        slots.update(i, x)
    } else {
        slots + Seq::new((i - slots.len()) as nat, |k: int| SlotModel::Empty) + seq![x]
    }
}

pub open spec fn int_at(slots: Seq<SlotModel>, i: int) -> Option<i32> {
    if 0 <= i < slots.len() && slots[i] is Int {
        Some(slots[i]->Int_0)
    } else {
        None
    }
}

pub open spec fn text_at(slots: Seq<SlotModel>, i: int) -> Option<Seq<char>> {
    if 0 <= i < slots.len() && slots[i] is Text {
        Some(slots[i]->Text_0)
    } else {
        None
    }
}

/// The slot that holds the tag of logical argument `index`, after a header of `header` slots.
pub open spec fn tag_slot(header: int, index: int) -> int {
    header + 2 * index
}

/// The message after logical argument `index` is written: its tag, then its payload.
pub open spec fn with_arg(m: MessageModel, header: int, index: int, v: ValueModel) -> MessageModel {
    let p = tag_slot(header, index);
    MessageModel {
        name: m.name,
        slots: set_slot(
            set_slot(m.slots, p, SlotModel::Int(tag_of(kind_of(v)) as i32)),
            p + 1,
            SlotModel::Text(payload_of(v)),
        ),
    }
}

/// The value of logical argument `index`, if its tag and payload slots hold a valid encoding.
pub open spec fn arg_at(slots: Seq<SlotModel>, header: int, index: int) -> Option<ValueModel> {
    let p = tag_slot(header, index);
    match (int_at(slots, p), text_at(slots, p + 1)) {
        (Some(t), Some(s)) => decode_spec(t as int, s),
        _ => None,
    }
}

/// The number of logical arguments after a header of `header` slots.
pub open spec fn arity_of(len: int, header: int) -> int {
    if len >= header {
        (len - header) / 2
    } else {
        0
    }
}

impl CallMessage {
    /// A message with the given operation name and no arguments.
    pub fn new(name: &str) -> (r: CallMessage)
        ensures
            r@.name == name@,
            r@.slots == Seq::<SlotModel>::empty(),
    {
        let r = CallMessage { name: name.to_owned(), slots: Vec::new() };
        assert(r@.slots =~= Seq::<SlotModel>::empty());
        r
    }

    pub fn name(&self) -> (r: &String)
        ensures
            r@ == self@.name,
    {
        &self.name
    }

    pub fn slot_count(&self) -> (r: usize)
        ensures
            r == self@.slots.len(),
    {
        self.slots.len()
    }

    fn put(&mut self, index: usize, x: Slot)
        requires
            index < usize::MAX,
        ensures
            final(self)@.name == old(self)@.name,
            final(self)@.slots == set_slot(old(self)@.slots, index as int, x@),
    {
        let ghost old_slots = self@.slots;
        let ghost xm = x@;
        if index < self.slots.len() {
            self.slots.set(index, x);
            assert(self@.slots =~= set_slot(old_slots, index as int, xm));
        } else {
            let ghost n0 = self.slots.len();
            while self.slots.len() < index
                invariant
                    n0 <= self.slots.len() <= index,
                    self@.name == old(self)@.name,
                    self@.slots =~= old_slots + Seq::new(
                        (self.slots.len() - n0) as nat,
                        |k: int| SlotModel::Empty,
                    ),
                decreases index - self.slots.len(),
            {
                let ghost before = self@.slots;
                self.slots.push(Slot::Empty);
                assert(self@.slots =~= before.push(SlotModel::Empty));
                assert(self@.slots =~= old_slots + Seq::new(
                    (self.slots.len() - n0) as nat,
                    |k: int| SlotModel::Empty,
                ));
            }
            let ghost before = self@.slots;
            self.slots.push(x);
            assert(self@.slots =~= before.push(xm));
            assert(self@.slots =~= set_slot(old_slots, index as int, xm));
        }
    }

    /// Sets slot `index` to an integer.
    pub fn set_int(&mut self, index: usize, n: i32)
        requires
            index < usize::MAX,
        ensures
            final(self)@.name == old(self)@.name,
            final(self)@.slots == set_slot(old(self)@.slots, index as int, SlotModel::Int(n)),
    {
        self.put(index, Slot::Int(n));
    }

    /// Sets slot `index` to a text.
    pub fn set_text(&mut self, index: usize, t: &str)
        requires
            index < usize::MAX,
        ensures
            final(self)@.name == old(self)@.name,
            final(self)@.slots == set_slot(old(self)@.slots, index as int, SlotModel::Text(t@)),
    {
        self.put(index, Slot::Text(t.to_owned()));
    }

    /// The integer in slot `index`, if that slot holds one.
    pub fn get_int(&self, index: usize) -> (r: Option<i32>)
        ensures
            r == int_at(self@.slots, index as int),
    {
        if index < self.slots.len() {
            match &self.slots[index] {
                Slot::Int(n) => Some(*n),
                _ => None,
            }
        } else {
            None
        }
    }

    /// The text in slot `index`, if that slot holds one.
    pub fn get_text(&self, index: usize) -> (r: Option<&String>)
        ensures
            match r {
                Some(t) => text_at(self@.slots, index as int) == Some(t@),
                None => text_at(self@.slots, index as int) is None,
            },
    {
        if index < self.slots.len() {
            match &self.slots[index] {
                Slot::Text(t) => Some(t),
                _ => None,
            }
        } else {
            None
        }
    }

    /// Writes logical argument `index`: its kind tag at `header + 2 * index`, its payload
    /// in the slot after.
    pub fn write_arg(&mut self, header: usize, index: usize, v: &Value)
        requires
            header + 2 * index + 2 < usize::MAX,
        ensures
            final(self)@ == with_arg(old(self)@, header as int, index as int, v@),
    {
        let (kind, text) = encode(v);
        let p = header + 2 * index;
        self.set_int(p, kind.tag());
        self.put(p + 1, Slot::Text(text));
    }

    /// Reads logical argument `index` back; fails when its slots are absent, of the wrong
    /// type, or hold a malformed encoding.
    pub fn read_arg(&self, header: usize, index: usize) -> (r: Result<Value, CodecError>)
        requires
            header + 2 * index + 2 < usize::MAX,
        ensures
            match r {
                Ok(v) => arg_at(self@.slots, header as int, index as int) == Some(v@),
                Err(e) => arg_at(self@.slots, header as int, index as int) is None && e
                    == CodecError::MalformedEncoding,
            },
    {
        let p = header + 2 * index;
        match (self.get_int(p), self.get_text(p + 1)) {
            (Some(t), Some(s)) => decode(t, s.as_str()),
            _ => Err(CodecError::MalformedEncoding),
        }
    }

    /// The number of logical arguments after a header of `header` slots.
    pub fn arity(&self, header: usize) -> (r: usize)
        ensures
            r == arity_of(self@.slots.len() as int, header as int),
    {
        if self.slots.len() >= header {
            (self.slots.len() - header) / 2
        } else {
            0
        }
    }
}

/// An argument written into a message reads back as the same value.
pub proof fn lemma_read_after_write(m: MessageModel, header: nat, index: nat, v: ValueModel)
    requires
        round_trips(v),
    ensures
        arg_at(with_arg(m, header as int, index as int, v).slots, header as int, index as int)
            == Some(v),
{
    crate::codec::lemma_round_trip(v);
}

/// Writing the argument that follows the last one adds exactly one to the arity.
pub proof fn lemma_arity_after_write(m: MessageModel, header: nat, index: nat, v: ValueModel)
    requires
        m.slots.len() <= tag_slot(header as int, index as int),
    ensures
        arity_of(with_arg(m, header as int, index as int, v).slots.len() as int, header as int)
            == index + 1,
{
    let p = tag_slot(header as int, index as int);
    let s1 = set_slot(m.slots, p, SlotModel::Int(tag_of(kind_of(v)) as i32));
    assert(s1.len() == p + 1);
    assert(set_slot(s1, p + 1, SlotModel::Text(payload_of(v))).len() == p + 2);
    assert((p + 2 - header) / 2 == index + 1);
}

/// Writing two arguments into a fresh message gives an arity of two, whatever the header.
pub proof fn lemma_two_args_arity(name: Seq<char>, header: nat, a: ValueModel, b: ValueModel)
    ensures
        arity_of(
            with_arg(
                with_arg(MessageModel { name, slots: seq![] }, header as int, 0, a),
                header as int,
                1,
                b,
            ).slots.len() as int,
            header as int,
        ) == 2,
{
    let m0 = MessageModel { name, slots: seq![] };
    lemma_arity_after_write(m0, header, 0, a);
    let m1 = with_arg(m0, header as int, 0, a);
    assert(m1.slots.len() == header + 2);
    lemma_arity_after_write(m1, header, 1, b);
}

} // verus!
