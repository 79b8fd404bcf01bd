//! The protocol's untyped value model.

use vstd::prelude::*;

verus! {

/// The kinds of value that can travel on the wire.
#[derive(Clone, Copy, Debug, PartialEq, Eq, Structural)]
pub enum WireKind {
    Nil,
    Bool,
    Int,
    Float32,
    Float64,
    Str,
    Bytes,
    Array,
    Pairs,
}

/// What a wire value is, mathematically: the view of [`WireValue`].
///
/// Floats are given by their IEEE 754 bit patterns, so that equality is
/// equality of bits. `Pairs` keeps the order in which the entries came.
pub enum Wire {
    Nil,
    Bool(bool),
    Int(int),
    Float32(u32),
    Float64(u64),
    Str(Seq<char>),
    Bytes(Seq<u8>),
    Array(Seq<Wire>),
    Pairs(Seq<(Wire, Wire)>),
}

impl Wire {
    pub open spec fn kind(self) -> WireKind {
        match self {
            Wire::Nil => WireKind::Nil,
            Wire::Bool(_) => WireKind::Bool,
            Wire::Int(_) => WireKind::Int,
            Wire::Float32(_) => WireKind::Float32,
            Wire::Float64(_) => WireKind::Float64,
            Wire::Str(_) => WireKind::Str,
            Wire::Bytes(_) => WireKind::Bytes,
            Wire::Array(_) => WireKind::Array,
            Wire::Pairs(_) => WireKind::Pairs,
        }
    }

    /// The value of entry `i` of an ordered key/value sequence; the key is
    /// never looked at.
    pub open spec fn field(self, i: int) -> Wire
        recommends
            self is Pairs,
            0 <= i < self->Pairs_0.len(),
    {
        self->Pairs_0[i].1
    }
}

/// A value as the protocol carries it.
///
/// A 32-bit or 64-bit float is held as its bit pattern. An integer is any
/// whole number; the protocol itself only carries those from `-2^63` to
/// `2^64 - 1`.
#[derive(Debug, PartialEq)]
pub enum WireValue {
    Nil,
    Bool(bool),
    Int(i128),
    Float32(u32),
    Float64(u64),
    Str(String),
    Bytes(Vec<u8>),
    Array(Vec<WireValue>),
    Pairs(Vec<(WireValue, WireValue)>),
}

/// The content of a wire value.
pub open spec fn content(v: WireValue) -> Wire
    decreases v,
{
    match v {
        WireValue::Nil => Wire::Nil,
        WireValue::Bool(b) => Wire::Bool(b),
        WireValue::Int(n) => Wire::Int(n as int),
        WireValue::Float32(bits) => Wire::Float32(bits),
        WireValue::Float64(bits) => Wire::Float64(bits),
        WireValue::Str(s) => Wire::Str(s@),
        WireValue::Bytes(b) => Wire::Bytes(b@),
        WireValue::Array(items) => Wire::Array(items_content(items@)),
        WireValue::Pairs(entries) => Wire::Pairs(pairs_content(entries@)),
    }
}

/// The contents of the items of a sequence, in order.
pub open spec fn items_content(items: Seq<WireValue>) -> Seq<Wire>
    decreases items,
{
    Seq::new(
        items.len(),
        |i: int|
            if 0 <= i < items.len() {
                content(items[i])
            } else {
                Wire::Nil
            },
    )
}

/// The contents of the keys and values of a key/value sequence, in order.
pub open spec fn pairs_content(entries: Seq<(WireValue, WireValue)>) -> Seq<(Wire, Wire)>
    decreases entries,
{
    Seq::new(
        entries.len(),
        |i: int|
            if 0 <= i < entries.len() {
                (content(entries[i].0), content(entries[i].1))
            } else {
                (Wire::Nil, Wire::Nil)
            },
    )
}

impl View for WireValue {
    type V = Wire;

    open spec fn view(&self) -> Wire {
        content(*self)
    }
}

impl Clone for WireValue {
    fn clone(&self) -> (r: Self)
        ensures
            r@ == self@,
    {
        self.duplicate()
    }
}

impl WireValue {
    /// A second value with the same content.
    #[verifier::loop_isolation(false)]
    pub fn duplicate(&self) -> (r: WireValue)
        ensures
            r@ == self@,
        decreases self,
    {
        match self {
            WireValue::Nil => WireValue::Nil,
            WireValue::Bool(b) => WireValue::Bool(*b),
            WireValue::Int(n) => WireValue::Int(*n),
            WireValue::Float32(bits) => WireValue::Float32(*bits),
            WireValue::Float64(bits) => WireValue::Float64(*bits),
            WireValue::Str(s) => WireValue::Str(s.clone()),
            WireValue::Bytes(b) => {
                let mut copy: Vec<u8> = Vec::new();
                let mut i: usize = 0;
                while i < b.len()
                    invariant
                        i <= b@.len(),
                        copy@ == b@.take(i as int),
                    decreases b@.len() - i,
                {
                    copy.push(b[i]);
                    i += 1;
                    assert(b@.take(i as int) == b@.take(i - 1).push(b@[i - 1]));
                }
                assert(b@.take(i as int) == b@);
                WireValue::Bytes(copy)
            },
            WireValue::Array(items) => {
                let mut copy: Vec<WireValue> = Vec::new();
                let mut i: usize = 0;
                while i < items.len()
                    invariant
                        i <= items@.len(),
                        copy@.len() == i,
                        forall|j: int| 0 <= j < i ==> (#[trigger] copy@[j])@ == items@[j]@,
                    decreases items@.len() - i,
                {
                    copy.push(items[i].duplicate());
                    i += 1;
                }
                assert(items_content(copy@) =~= items_content(items@));
                WireValue::Array(copy)
            },
            WireValue::Pairs(entries) => {
                let mut copy: Vec<(WireValue, WireValue)> = Vec::new();
                let mut i: usize = 0;
                while i < entries.len()
                    invariant
                        i <= entries@.len(),
                        copy@.len() == i,
                        forall|j: int|
                            0 <= j < i ==> (#[trigger] copy@[j]).0@ == entries@[j].0@
                                && copy@[j].1@ == entries@[j].1@,
                    decreases entries@.len() - i,
                {
                    let key = entries[i].0.duplicate();
                    let value = entries[i].1.duplicate();
                    copy.push((key, value));
                    i += 1;
                }
                assert(pairs_content(copy@) =~= pairs_content(entries@));
                WireValue::Pairs(copy)
            },
        }
    }

    /// Which kind of value this is.
    pub fn kind(&self) -> (k: WireKind)
        ensures
            k == self@.kind(),
    {
        match self {
            WireValue::Nil => WireKind::Nil,
            WireValue::Bool(_) => WireKind::Bool,
            WireValue::Int(_) => WireKind::Int,
            WireValue::Float32(_) => WireKind::Float32,
            WireValue::Float64(_) => WireKind::Float64,
            WireValue::Str(_) => WireKind::Str,
            WireValue::Bytes(_) => WireKind::Bytes,
            WireValue::Array(_) => WireKind::Array,
            WireValue::Pairs(_) => WireKind::Pairs,
        }
    }

    /// A string value holding the characters of `s`.
    pub fn text(s: &str) -> (v: WireValue)
        ensures
            v@ == Wire::Str(s@),
    {
        WireValue::Str(s.to_owned())
    }

    /// The integer value `n`.
    pub fn unsigned(n: u64) -> (v: WireValue)
        ensures
            v@ == Wire::Int(n as int),
    {
        WireValue::Int(n as i128)
    }

    /// The integer value `n`.
    pub fn signed(n: i64) -> (v: WireValue)
        ensures
            v@ == Wire::Int(n as int),
    {
        WireValue::Int(n as i128)
    }
}

} // verus!
