//! Reading the fields of a payload by position.
//!
//! A record travels as an ordered key/value sequence. Its fields are found
//! by their place in that sequence and never by their keys.

use crate::error::{DecodeError, SchemaMismatch};
use crate::number::{
    double_from_single_spec, lemma_widening_is_undone, single_from_double,
    single_from_double_spec, single_from_int, single_from_int_spec, single_is_nan,
};
use crate::wire::{pairs_content, Wire, WireKind, WireValue};
use vstd::prelude::*;

verus! {

/// The entries of a record that must have at least `n` fields.
pub open spec fn fields_of(w: Wire, n: nat) -> Result<Seq<(Wire, Wire)>, DecodeError> {
    match w {
        Wire::Pairs(entries) => if entries.len() >= n {
            Ok(entries)
        } else {
            Err(
                DecodeError::SchemaMismatch(
                    SchemaMismatch::FieldCount {
                        expected_fields: n as usize,
                        got: entries.len() as usize,
                    },
                ),
            )
        },
        _ => Err(
            DecodeError::SchemaMismatch(
                SchemaMismatch::Shape { expected: WireKind::Pairs, got: w.kind() },
            ),
        ),
    }
}

/// The error of a field that is of the wrong kind.
pub open spec fn wrong_field(i: int, expected_kind: WireKind) -> DecodeError {
    DecodeError::SchemaMismatch(SchemaMismatch::Field { field_index: i as usize, expected_kind })
}

/// A number of any wire kind as the bits of a single; nothing for a value
/// that is no number.
pub open spec fn single_of(w: Wire) -> Option<u32> {
    match w {
        Wire::Float32(bits) => Some(bits),
        Wire::Float64(bits) => Some(single_from_double_spec(bits)),
        Wire::Int(n) => Some(single_from_int_spec(n)),
        _ => None,
    }
}

/// A whole number that a `u64` holds; nothing for anything else.
pub open spec fn unsigned_of(w: Wire) -> Option<u64> {
    match w {
        Wire::Int(n) => if 0 <= n <= u64::MAX {
            Some(n as u64)
        } else {
            None
        },
        _ => None,
    }
}

pub open spec fn single_field(f: Seq<(Wire, Wire)>, i: int) -> Result<u32, DecodeError> {
    match single_of(f[i].1) {
        Some(bits) => Ok(bits),
        None => Err(wrong_field(i, WireKind::Float32)),
    }
}

pub open spec fn unsigned_field(f: Seq<(Wire, Wire)>, i: int) -> Result<u64, DecodeError> {
    match unsigned_of(f[i].1) {
        Some(n) => Ok(n),
        None => Err(wrong_field(i, WireKind::Int)),
    }
}

pub open spec fn bool_field(f: Seq<(Wire, Wire)>, i: int) -> Result<bool, DecodeError> {
    match f[i].1 {
        Wire::Bool(b) => Ok(b),
        _ => Err(wrong_field(i, WireKind::Bool)),
    }
}

/// The error of a record that holds `got` fields where `n` are needed.
pub open spec fn too_few(n: nat, got: nat) -> DecodeError {
    DecodeError::SchemaMismatch(
        SchemaMismatch::FieldCount { expected_fields: n as usize, got: got as usize },
    )
}

/// A record with fewer entries than a layout needs is turned down for its
/// field count, whatever the entries are.
pub proof fn lemma_short_record(entries: Seq<(Wire, Wire)>, n: nat)
    requires
        entries.len() < n,
    ensures
        fields_of(Wire::Pairs(entries), n) == Err::<Seq<(Wire, Wire)>, _>(
            too_few(n, entries.len()),
        ),
{
}

/// The entries of `v` if it is a record of at least `n` fields.
pub fn fields(v: &WireValue, n: usize) -> (r: Result<&Vec<(WireValue, WireValue)>, DecodeError>)
    ensures
        match r {
            Ok(entries) => fields_of(v@, n as nat) == Ok::<_, DecodeError>(pairs_content(entries@))
                && entries@.len() >= n,
            Err(e) => fields_of(v@, n as nat) == Err::<Seq<(Wire, Wire)>, _>(e),
        },
{
    match v {
        WireValue::Pairs(entries) => {
            if entries.len() >= n {
                Ok(entries)
            } else {
                Err(
                    DecodeError::SchemaMismatch(
                        SchemaMismatch::FieldCount { expected_fields: n, got: entries.len() },
                    ),
                )
            }
        },
        _ => Err(
            DecodeError::SchemaMismatch(
                SchemaMismatch::Shape { expected: WireKind::Pairs, got: v.kind() },
            ),
        ),
    }
}

/// A number of any wire kind as the bits of a single.
pub fn as_single(v: &WireValue) -> (r: Option<u32>)
    ensures
        r == single_of(v@),
{
    match v {
        WireValue::Float32(bits) => Some(*bits),
        WireValue::Float64(bits) => Some(single_from_double(*bits)),
        WireValue::Int(n) => Some(single_from_int(*n)),
        _ => None,
    }
}

/// A whole number that a `u64` holds.
pub fn as_unsigned(v: &WireValue) -> (r: Option<u64>)
    ensures
        r == unsigned_of(v@),
{
    match v {
        WireValue::Int(n) => {
            if 0 <= *n && *n <= 0xffff_ffff_ffff_ffff {
                Some(*n as u64)
            } else {
                None
            }
        },
        _ => None,
    }
}

/// Field `i` read as a single.
pub fn single_at(entries: &Vec<(WireValue, WireValue)>, i: usize) -> (r: Result<u32, DecodeError>)
    requires
        i < entries@.len(),
    ensures
        r == single_field(pairs_content(entries@), i as int),
{
    match as_single(&entries[i].1) {
        Some(bits) => Ok(bits),
        None => Err(
            DecodeError::SchemaMismatch(
                SchemaMismatch::Field { field_index: i, expected_kind: WireKind::Float32 },
            ),
        ),
    }
}

/// Field `i` read as an unsigned whole number.
pub fn unsigned_at(entries: &Vec<(WireValue, WireValue)>, i: usize) -> (r: Result<
    u64,
    DecodeError,
>)
    requires
        i < entries@.len(),
    ensures
        r == unsigned_field(pairs_content(entries@), i as int),
{
    match as_unsigned(&entries[i].1) {
        Some(n) => Ok(n),
        None => Err(
            DecodeError::SchemaMismatch(
                SchemaMismatch::Field { field_index: i, expected_kind: WireKind::Int },
            ),
        ),
    }
}

/// Field `i` read as a boolean.
pub fn bool_at(entries: &Vec<(WireValue, WireValue)>, i: usize) -> (r: Result<bool, DecodeError>)
    requires
        i < entries@.len(),
    ensures
        r == bool_field(pairs_content(entries@), i as int),
{
    match &entries[i].1 {
        WireValue::Bool(b) => Ok(*b),
        _ => Err(
            DecodeError::SchemaMismatch(
                SchemaMismatch::Field { field_index: i, expected_kind: WireKind::Bool },
            ),
        ),
    }
}

/// One entry of a record: a string key and a value.
pub fn entry(key: &str, value: WireValue) -> (e: (WireValue, WireValue))
    ensures
        e.0@ == Wire::Str(key@),
        e.1@ == value@,
{
    (WireValue::text(key), value)
}

/// Whether two records have the same first `n` values, whatever their keys
/// and whatever comes after.
pub open spec fn same_values(f: Seq<(Wire, Wire)>, g: Seq<(Wire, Wire)>, n: nat) -> bool {
    &&& f.len() >= n
    &&& g.len() >= n
    &&& forall|i: int| 0 <= i < n ==> (#[trigger] f[i]).1 == g[i].1
}

/// A 32-bit float is read as it stands, and that is what widening it to a
/// double and narrowing the double would give.
pub proof fn lemma_single_is_read_as_it_stands(bits: u32)
    requires
        !single_is_nan(bits),
    ensures
        single_of(Wire::Float32(bits)) == Some(bits),
        single_of(Wire::Float64(double_from_single_spec(bits))) == Some(bits),
{
    lemma_widening_is_undone(bits);
}

} // verus!
