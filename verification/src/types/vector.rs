use crate::codec::{
    entry, fields, fields_of, lemma_short_record, same_values, single_at, single_field, too_few,
};
use crate::error::DecodeError;
use crate::wire::{pairs_content, Wire, WireValue};
use vstd::prelude::*;

verus! {

/// How many fields the layout of a vector has.
pub const VECTOR3_FIELDS: usize = 3;

/// Three coordinates, each the bits of a 32-bit float.
#[derive(Clone, Copy, Debug, PartialEq, Eq, Structural)]
pub struct Vector3 {
    pub x: u32,
    pub y: u32,
    pub z: u32,
}

impl Vector3 {
    /// The wire form: the three coordinates in the order x, y, z, each a
    /// 32-bit float.
    pub open spec fn encoded(self) -> Wire {
        Wire::Pairs(
            seq![
                (Wire::Str("x_val"@), Wire::Float32(self.x)),
                (Wire::Str("y_val"@), Wire::Float32(self.y)),
                (Wire::Str("z_val"@), Wire::Float32(self.z)),
            ],
        )
    }

    /// What a wire value reads as: a record whose first three fields are
    /// numbers.
    pub open spec fn decoded(w: Wire) -> Result<Vector3, DecodeError> {
        match fields_of(w, VECTOR3_FIELDS as nat) {
            Err(e) => Err(e),
            Ok(f) => match single_field(f, 0) {
                Err(e) => Err(e),
                Ok(x) => match single_field(f, 1) {
                    Err(e) => Err(e),
                    Ok(y) => match single_field(f, 2) {
                        Err(e) => Err(e),
                        Ok(z) => Ok(Vector3 { x, y, z }),
                    },
                },
            },
        }
    }

    /// Puts the parts together.
    pub fn new(x: u32, y: u32, z: u32) -> (v: Self)
        ensures
            v == (Vector3 { x, y, z }),
    {
        Vector3 { x, y, z }
    }

    /// Writes the value in its wire form.
    pub fn as_msgpack(&self) -> (v: WireValue)
        ensures
            v@ == self.encoded(),
    {
        let mut entries: Vec<(WireValue, WireValue)> = Vec::new();
        entries.push(entry("x_val", WireValue::Float32(self.x)));
        entries.push(entry("y_val", WireValue::Float32(self.y)));
        entries.push(entry("z_val", WireValue::Float32(self.z)));
        assert(pairs_content(entries@) =~= self.encoded()->Pairs_0);
        WireValue::Pairs(entries)
    }

    /// Reads a wire value. Nothing is read past the layout, and no input makes
    /// this fail in another way than by the error it returns.
    pub fn decode(value: &WireValue) -> (r: Result<Vector3, DecodeError>)
        ensures
            r == Self::decoded(value@),
    {
        let f = fields(value, VECTOR3_FIELDS)?;
        let x: u32 = single_at(f, 0)?;
        let y: u32 = single_at(f, 1)?;
        let z: u32 = single_at(f, 2)?;
        Ok(Vector3 { x, y, z })
    }

    /// Reading back what was written gives the same vector, bit for bit.
    pub proof fn lemma_round_trip(self)
        ensures
            Self::decoded(self.encoded()) == Ok::<_, DecodeError>(self),
    {
    }

    /// A record of fewer than three fields is turned down for its field
    /// count.
    pub proof fn lemma_too_few_fields(entries: Seq<(Wire, Wire)>)
        requires
            entries.len() < VECTOR3_FIELDS,
        ensures
            Self::decoded(Wire::Pairs(entries)) == Err::<Vector3, _>(
                too_few(VECTOR3_FIELDS as nat, entries.len()),
            ),
    {
        lemma_short_record(entries, VECTOR3_FIELDS as nat);
    }

    /// Only the first three values of a record are read: neither the keys
    /// nor anything after those values changes what the record reads as.
    pub proof fn lemma_reads_by_position(f: Seq<(Wire, Wire)>, g: Seq<(Wire, Wire)>)
        requires
            same_values(f, g, VECTOR3_FIELDS as nat),
        ensures
            Self::decoded(Wire::Pairs(f)) == Self::decoded(Wire::Pairs(g)),
    {
        assert(f[0].1 == g[0].1);
        assert(f[1].1 == g[1].1);
        assert(f[2].1 == g[2].1);
    }
}

} // verus!
