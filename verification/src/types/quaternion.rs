use crate::codec::{
    entry, fields, fields_of, lemma_short_record, same_values, single_at, single_field, too_few,
};
use crate::error::DecodeError;
use crate::wire::{pairs_content, Wire, WireValue};
use vstd::prelude::*;

verus! {

/// How many fields the layout of a quaternion has.
pub const QUATERNION_FIELDS: usize = 4;

/// A rotation as a quaternion: the scalar part `w` and the vector part
/// `x`, `y`, `z`, each the bits of a 32-bit float.
#[derive(Clone, Copy, Debug, PartialEq, Eq, Structural)]
pub struct Quaternionr {
    pub w: u32,
    pub x: u32,
    pub y: u32,
    pub z: u32,
}

impl Quaternionr {
    /// The wire form: the four parts in the order w, x, y, z.
    pub open spec fn encoded(self) -> Wire {
        Wire::Pairs(
            seq![
                (Wire::Str("w_val"@), Wire::Float32(self.w)),
                (Wire::Str("x_val"@), Wire::Float32(self.x)),
                (Wire::Str("y_val"@), Wire::Float32(self.y)),
                (Wire::Str("z_val"@), Wire::Float32(self.z)),
            ],
        )
    }

    /// What a wire value reads as: a record whose first four fields are
    /// numbers.
    pub open spec fn decoded(v: Wire) -> Result<Quaternionr, DecodeError> {
        match fields_of(v, QUATERNION_FIELDS as nat) {
            Err(e) => Err(e),
            Ok(f) => match single_field(f, 0) {
                Err(e) => Err(e),
                Ok(w) => match single_field(f, 1) {
                    Err(e) => Err(e),
                    Ok(x) => match single_field(f, 2) {
                        Err(e) => Err(e),
                        Ok(y) => match single_field(f, 3) {
                            Err(e) => Err(e),
                            Ok(z) => Ok(Quaternionr { w, x, y, z }),
                        },
                    },
                },
            },
        }
    }

    /// Puts the parts together.
    pub fn new(w: u32, x: u32, y: u32, z: u32) -> (q: Self)
        ensures
            q == (Quaternionr { w, x, y, z }),
    {
        Quaternionr { w, x, y, z }
    }

    /// Writes the value in its wire form.
    pub fn as_msgpack(&self) -> (v: WireValue)
        ensures
            v@ == self.encoded(),
    {
        let mut entries: Vec<(WireValue, WireValue)> = Vec::new();
        entries.push(entry("w_val", WireValue::Float32(self.w)));
        entries.push(entry("x_val", WireValue::Float32(self.x)));
        entries.push(entry("y_val", WireValue::Float32(self.y)));
        entries.push(entry("z_val", WireValue::Float32(self.z)));
        assert(pairs_content(entries@) =~= self.encoded()->Pairs_0);
        WireValue::Pairs(entries)
    }

    /// Reads a wire value. Nothing is read past the layout, and no input makes
    /// this fail in another way than by the error it returns.
    pub fn decode(value: &WireValue) -> (r: Result<Quaternionr, DecodeError>)
        ensures
            r == Self::decoded(value@),
    {
        let f = fields(value, QUATERNION_FIELDS)?;
        let w: u32 = single_at(f, 0)?;
        let x: u32 = single_at(f, 1)?;
        let y: u32 = single_at(f, 2)?;
        let z: u32 = single_at(f, 3)?;
        Ok(Quaternionr { w, x, y, z })
    }

    /// Reading back what was written gives the same quaternion, bit for
    /// bit.
    pub proof fn lemma_round_trip(self)
        ensures
            Self::decoded(self.encoded()) == Ok::<_, DecodeError>(self),
    {
    }

    /// A record of fewer than four fields is turned down for its field
    /// count.
    pub proof fn lemma_too_few_fields(entries: Seq<(Wire, Wire)>)
        requires
            entries.len() < QUATERNION_FIELDS,
        ensures
            Self::decoded(Wire::Pairs(entries)) == Err::<Quaternionr, _>(
                too_few(QUATERNION_FIELDS as nat, entries.len()),
            ),
    {
        lemma_short_record(entries, QUATERNION_FIELDS as nat);
    }

    /// Only the first four values of a record are read: neither the keys
    /// nor anything after those values changes what the record reads as.
    pub proof fn lemma_reads_by_position(f: Seq<(Wire, Wire)>, g: Seq<(Wire, Wire)>)
        requires
            same_values(f, g, QUATERNION_FIELDS as nat),
        ensures
            Self::decoded(Wire::Pairs(f)) == Self::decoded(Wire::Pairs(g)),
    {
        assert(f[0].1 == g[0].1);
        assert(f[1].1 == g[1].1);
        assert(f[2].1 == g[2].1);
        assert(f[3].1 == g[3].1);
    }
}

} // verus!
