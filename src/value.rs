use vstd::prelude::*;

verus! {

/// What a configuration value holds.
#[derive(Clone, Debug, PartialEq)]
pub enum ValueKind {
    String(String),
    Integer(i64),
    /// A floating-point number, kept as the text that writes it.
    Float(String),
}

/// The mathematical form of a `ValueKind`.
pub enum KindView {
    Str(Seq<char>),
    Int(i64),
    Float(Seq<char>),
}

impl View for ValueKind {
    type V = KindView;

    open spec fn view(&self) -> KindView {
        match self {
            ValueKind::String(s) => KindView::Str(s@),
            ValueKind::Integer(i) => KindView::Int(*i),
            ValueKind::Float(s) => KindView::Float(s@),
        }
    }
}

/// A configuration value together with a description of where it came from.
#[derive(Clone, Debug, PartialEq)]
pub struct Value {
    pub origin: Option<String>,
    pub kind: ValueKind,
}

pub struct ValueView {
    pub origin: Option<Seq<char>>,
    pub kind: KindView,
}

impl View for Value {
    type V = ValueView;

    open spec fn view(&self) -> ValueView {
        ValueView { origin: self.origin.deep_view(), kind: self.kind@ }
    }
}

impl Value {
    pub fn new(origin: Option<&str>, kind: ValueKind) -> (r: Value)
        ensures
            r@ == (ValueView { origin: origin.deep_view(), kind: kind@ }),
    {
        let origin = match origin {
            Some(o) => Some(String::from_str(o)),
            None => None,
        };
        Value { origin, kind }
    }
}

} // verus!
