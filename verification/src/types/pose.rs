use crate::codec::{entry, fields, fields_of, lemma_short_record, same_values, too_few};
use crate::error::DecodeError;
use crate::types::quaternion::Quaternionr;
use crate::types::vector::Vector3;
use crate::wire::{pairs_content, Wire, WireValue};
use vstd::prelude::*;

verus! {

/// A goal position, in the frame the command names.
pub type Position = Vector3;

/// How many fields the layout of a pose has.
pub const POSE_FIELDS: usize = 2;

/// Where something is and how it is turned.
#[derive(Clone, Copy, Debug, PartialEq, Eq, Structural)]
pub struct Pose3 {
    pub position: Vector3,
    pub orientation: Quaternionr,
}

impl Pose3 {
    /// The wire form: the position, then the orientation.
    pub open spec fn encoded(self) -> Wire {
        Wire::Pairs(
            seq![
                (Wire::Str("position"@), self.position.encoded()),
                (Wire::Str("orientation"@), self.orientation.encoded()),
            ],
        )
    }

    /// What a wire value reads as: a record whose first field is a vector
    /// and whose second is a quaternion. What is wrong inside one of the
    /// two is reported as that part reports it.
    pub open spec fn decoded(w: Wire) -> Result<Pose3, DecodeError> {
        match fields_of(w, POSE_FIELDS as nat) {
            Err(e) => Err(e),
            Ok(f) => match Vector3::decoded(f[0].1) {
                Err(e) => Err(e),
                Ok(position) => match Quaternionr::decoded(f[1].1) {
                    Err(e) => Err(e),
                    Ok(orientation) => Ok(Pose3 { position, orientation }),
                },
            },
        }
    }

    /// Puts the parts together.
    pub fn new(position: Vector3, orientation: Quaternionr) -> (p: Self)
        ensures
            p == (Pose3 { position, orientation }),
    {
        Pose3 { position, orientation }
    }

    /// Writes the value in its wire form.
    pub fn as_msgpack(&self) -> (v: WireValue)
        ensures
            v@ == self.encoded(),
    {
        let mut entries: Vec<(WireValue, WireValue)> = Vec::new();
        entries.push(entry("position", self.position.as_msgpack()));
        entries.push(entry("orientation", self.orientation.as_msgpack()));
        assert(pairs_content(entries@) =~= self.encoded()->Pairs_0);
        WireValue::Pairs(entries)
    }

    /// Reads a wire value. Nothing is read past the layout, and no input makes
    /// this fail in another way than by the error it returns.
    pub fn decode(value: &WireValue) -> (r: Result<Pose3, DecodeError>)
        ensures
            r == Self::decoded(value@),
    {
        let f = fields(value, POSE_FIELDS)?;
        let position = Vector3::decode(&f[0].1)?;
        let orientation = Quaternionr::decode(&f[1].1)?;
        Ok(Pose3 { position, orientation })
    }

    /// Reading back what was written gives the same pose, bit for bit.
    pub proof fn lemma_round_trip(self)
        ensures
            Self::decoded(self.encoded()) == Ok::<_, DecodeError>(self),
    {
        self.position.lemma_round_trip();
        self.orientation.lemma_round_trip();
    }

    /// A record of fewer than two fields is turned down for its field
    /// count.
    pub proof fn lemma_too_few_fields(entries: Seq<(Wire, Wire)>)
        requires
            entries.len() < POSE_FIELDS,
        ensures
            Self::decoded(Wire::Pairs(entries)) == Err::<Pose3, _>(
                too_few(POSE_FIELDS as nat, entries.len()),
            ),
    {
        lemma_short_record(entries, POSE_FIELDS as nat);
    }

    /// Only the first two values of a record are read: neither the keys
    /// nor anything after those values changes what the record reads as.
    pub proof fn lemma_reads_by_position(f: Seq<(Wire, Wire)>, g: Seq<(Wire, Wire)>)
        requires
            same_values(f, g, POSE_FIELDS as nat),
        ensures
            Self::decoded(Wire::Pairs(f)) == Self::decoded(Wire::Pairs(g)),
    {
        assert(f[0].1 == g[0].1);
        assert(f[1].1 == g[1].1);
    }
}

} // verus!
