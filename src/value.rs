use vstd::prelude::*;

verus! {

/// The wire discriminator of a typed value.
#[derive(Clone, Copy, Debug, PartialEq, Eq, Structural)]
pub enum Kind {
    Null,
    Bool,
    Double,
    Str,
    Array,
    Error,
}

/// The integer that stands for a kind on the wire.
pub open spec fn tag_of(k: Kind) -> int {
    match k {
        Kind::Null => 0,
        Kind::Bool => 1,
        Kind::Double => 2,
        Kind::Str => 3,
        Kind::Array => 4,
        Kind::Error => 5,
    }
}

/// The kind that a wire integer stands for, if any.
pub open spec fn kind_of_tag(t: int) -> Option<Kind> {
    if t == 0 {
        Some(Kind::Null)
    } else if t == 1 {
        Some(Kind::Bool)
    } else if t == 2 {
        Some(Kind::Double)
    } else if t == 3 {
        Some(Kind::Str)
    } else if t == 4 {
        Some(Kind::Array)
    } else if t == 5 {
        Some(Kind::Error)
    } else {
        None
    }
}

/// Tags and kinds are in one-to-one correspondence.
pub proof fn lemma_tag_bijective(k: Kind, t: int)
    ensures
        kind_of_tag(tag_of(k)) == Some(k),
        kind_of_tag(t) == Some(k) <==> t == tag_of(k),
{
}

impl Kind {
    pub fn tag(&self) -> (r: i32)
        ensures
            r == tag_of(*self),
    {
        match self {
            Kind::Null => 0,
            Kind::Bool => 1,
            Kind::Double => 2,
            Kind::Str => 3,
            Kind::Array => 4,
            Kind::Error => 5,
        }
    }

    pub fn from_tag(t: i32) -> (r: Option<Kind>)
        ensures
            r == kind_of_tag(t as int),
    {
        if t == 0 {
            Some(Kind::Null)
        } else if t == 1 {
            Some(Kind::Bool)
        } else if t == 2 {
            Some(Kind::Double)
        } else if t == 3 {
            Some(Kind::Str)
        } else if t == 4 {
            Some(Kind::Array)
        } else if t == 5 {
            Some(Kind::Error)
        } else {
            None
        }
    }
}

/// A typed value that crosses the process boundary.
///
/// A double is carried as its decimal text, the form in which it travels.
#[derive(Debug)]
pub enum Value {
    Null,
    Bool(bool),
    Double(String),
    Str(String),
    Array(Vec<Value>),
    Error(String),
}

/// The mathematical content of a `Value`.
pub enum ValueModel {
    Null,
    Bool(bool),
    Double(Seq<char>),
    Str(Seq<char>),
    Array(Seq<ValueModel>),
    Error(Seq<char>),
}

impl View for Value {
    type V = ValueModel;

    open spec fn view(&self) -> ValueModel
        decreases self,
    {
        match self {
            Value::Null => ValueModel::Null,
            Value::Bool(b) => ValueModel::Bool(*b),
            Value::Double(s) => ValueModel::Double(s@),
            Value::Str(s) => ValueModel::Str(s@),
            Value::Array(a) => ValueModel::Array(
                Seq::new(
                    a.len() as nat,
                    |i: int|
                        if 0 <= i < a.len() {
                            a[i].view()
                        } else {
                            ValueModel::Null
                        },
                ),
            ),
            Value::Error(s) => ValueModel::Error(s@),
        }
    }
}

/// The models of a sequence of values.
pub open spec fn models(a: Seq<Value>) -> Seq<ValueModel> {
    Seq::new(a.len(), |i: int| a[i]@)
}

pub open spec fn kind_of(v: ValueModel) -> Kind {
    match v {
        ValueModel::Null => Kind::Null,
        ValueModel::Bool(_) => Kind::Bool,
        ValueModel::Double(_) => Kind::Double,
        ValueModel::Str(_) => Kind::Str,
        ValueModel::Array(_) => Kind::Array,
        ValueModel::Error(_) => Kind::Error,
    }
}

impl Value {
    pub fn kind(&self) -> (r: Kind)
        ensures
            r == kind_of(self@),
    {
        match self {
            Value::Null => Kind::Null,
            Value::Bool(_) => Kind::Bool,
            Value::Double(_) => Kind::Double,
            Value::Str(_) => Kind::Str,
            Value::Array(_) => Kind::Array,
            Value::Error(_) => Kind::Error,
        }
    }
}

} // verus!
