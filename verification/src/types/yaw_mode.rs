use crate::codec::{
    bool_at, bool_field, entry, fields, fields_of, lemma_short_record, same_values, single_at,
    single_field, too_few,
};
use crate::error::DecodeError;
use crate::wire::{pairs_content, Wire, WireValue};
use vstd::prelude::*;

verus! {

/// How many fields the layout of a yaw mode has.
pub const YAW_MODE_FIELDS: usize = 2;

/// How the heading is steered during a manoeuvre: towards a fixed angle, or
/// turning at a rate. The number is the bits of a 32-bit float.
#[derive(Clone, Copy, Debug, PartialEq, Eq, Structural)]
pub struct YawMode {
    pub is_rate: bool,
    pub yaw_or_rate: u32,
}

impl YawMode {
    /// The wire form: the flag, then the number.
    pub open spec fn encoded(self) -> Wire {
        Wire::Pairs(
            seq![
                (Wire::Str("is_rate"@), Wire::Bool(self.is_rate)),
                (Wire::Str("yaw_or_rate"@), Wire::Float32(self.yaw_or_rate)),
            ],
        )
    }

    /// What a wire value reads as: a record whose first field is a boolean
    /// and whose second is a number.
    pub open spec fn decoded(w: Wire) -> Result<YawMode, DecodeError> {
        match fields_of(w, YAW_MODE_FIELDS as nat) {
            Err(e) => Err(e),
            Ok(f) => match bool_field(f, 0) {
                Err(e) => Err(e),
                Ok(is_rate) => match single_field(f, 1) {
                    Err(e) => Err(e),
                    Ok(yaw_or_rate) => Ok(YawMode { is_rate, yaw_or_rate }),
                },
            },
        }
    }

    /// Puts the parts together.
    pub fn new(is_rate: bool, yaw_or_rate: u32) -> (m: Self)
        ensures
            m == (YawMode { is_rate, yaw_or_rate }),
    {
        YawMode { is_rate, yaw_or_rate }
    }

    /// Writes the value in its wire form.
    pub fn to_msgpack(&self) -> (v: WireValue)
        ensures
            v@ == self.encoded(),
    {
        let mut entries: Vec<(WireValue, WireValue)> = Vec::new();
        entries.push(entry("is_rate", WireValue::Bool(self.is_rate)));
        entries.push(entry("yaw_or_rate", WireValue::Float32(self.yaw_or_rate)));
        assert(pairs_content(entries@) =~= self.encoded()->Pairs_0);
        WireValue::Pairs(entries)
    }

    /// Reads a wire value. Nothing is read past the layout, and no input makes
    /// this fail in another way than by the error it returns.
    pub fn decode(value: &WireValue) -> (r: Result<YawMode, DecodeError>)
        ensures
            r == Self::decoded(value@),
    {
        let f = fields(value, YAW_MODE_FIELDS)?;
        let is_rate = bool_at(f, 0)?;
        let yaw_or_rate: u32 = single_at(f, 1)?;
        Ok(YawMode { is_rate, yaw_or_rate })
    }

    /// Reading back what was written gives the same mode.
    pub proof fn lemma_round_trip(self)
        ensures
            Self::decoded(self.encoded()) == Ok::<_, DecodeError>(self),
    {
    }

    /// A record of fewer than two fields is turned down for its field
    /// count.
    pub proof fn lemma_too_few_fields(entries: Seq<(Wire, Wire)>)
        requires
            entries.len() < YAW_MODE_FIELDS,
        ensures
            Self::decoded(Wire::Pairs(entries)) == Err::<YawMode, _>(
                too_few(YAW_MODE_FIELDS as nat, entries.len()),
            ),
    {
        lemma_short_record(entries, YAW_MODE_FIELDS as nat);
    }

    /// Only the first two values of a record are read: neither the keys
    /// nor anything after those values changes what the record reads as.
    pub proof fn lemma_reads_by_position(f: Seq<(Wire, Wire)>, g: Seq<(Wire, Wire)>)
        requires
            same_values(f, g, YAW_MODE_FIELDS as nat),
        ensures
            Self::decoded(Wire::Pairs(f)) == Self::decoded(Wire::Pairs(g)),
    {
        assert(f[0].1 == g[0].1);
        assert(f[1].1 == g[1].1);
    }
}

} // verus!
