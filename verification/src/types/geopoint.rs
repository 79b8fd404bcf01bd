use crate::codec::{
    entry, fields, fields_of, lemma_short_record, same_values, single_at, single_field, too_few,
};
use crate::error::{outcome_view, reply_view, typed_reply, DecodeError, NetworkError};
use crate::wire::{pairs_content, Wire, WireValue};
use vstd::prelude::*;

verus! {

/// How many fields the layout of a geo point has.
pub const GEO_POINT_FIELDS: usize = 3;

/// A place on the globe, each number the bits of a 32-bit float.
#[derive(Clone, Copy, Debug, PartialEq, Eq, Structural)]
pub struct GeoPoint {
    pub latitude: u32,
    pub longitude: u32,
    pub altitude: u32,
}

impl GeoPoint {
    /// The wire form: latitude, longitude, altitude, in that order.
    pub open spec fn encoded(self) -> Wire {
        Wire::Pairs(
            seq![
                (Wire::Str("latitude"@), Wire::Float32(self.latitude)),
                (Wire::Str("longitude"@), Wire::Float32(self.longitude)),
                (Wire::Str("altitude"@), Wire::Float32(self.altitude)),
            ],
        )
    }

    /// What a wire value reads as: a record whose first three fields are
    /// numbers.
    pub open spec fn decoded(w: Wire) -> Result<GeoPoint, DecodeError> {
        match fields_of(w, GEO_POINT_FIELDS as nat) {
            Err(e) => Err(e),
            Ok(f) => match single_field(f, 0) {
                Err(e) => Err(e),
                Ok(latitude) => match single_field(f, 1) {
                    Err(e) => Err(e),
                    Ok(longitude) => match single_field(f, 2) {
                        Err(e) => Err(e),
                        Ok(altitude) => Ok(GeoPoint { latitude, longitude, altitude }),
                    },
                },
            },
        }
    }

    /// Puts the parts together.
    pub fn new(latitude: u32, longitude: u32, altitude: u32) -> (p: Self)
        ensures
            p == (GeoPoint { latitude, longitude, altitude }),
    {
        GeoPoint { latitude, longitude, altitude }
    }

    /// Writes the value in its wire form.
    pub fn as_msgpack(&self) -> (v: WireValue)
        ensures
            v@ == self.encoded(),
    {
        let mut entries: Vec<(WireValue, WireValue)> = Vec::new();
        entries.push(entry("latitude", WireValue::Float32(self.latitude)));
        entries.push(entry("longitude", WireValue::Float32(self.longitude)));
        entries.push(entry("altitude", WireValue::Float32(self.altitude)));
        assert(pairs_content(entries@) =~= self.encoded()->Pairs_0);
        WireValue::Pairs(entries)
    }

    /// Reads a wire value. Nothing is read past the layout, and no input makes
    /// this fail in another way than by the error it returns.
    pub fn decode(value: &WireValue) -> (r: Result<GeoPoint, DecodeError>)
        ensures
            r == Self::decoded(value@),
    {
        let f = fields(value, GEO_POINT_FIELDS)?;
        let latitude: u32 = single_at(f, 0)?;
        let longitude: u32 = single_at(f, 1)?;
        let altitude: u32 = single_at(f, 2)?;
        Ok(GeoPoint { latitude, longitude, altitude })
    }

    /// Reads the end of a call whose payload is a geo point: the value read,
    /// the decode error where the payload is none, and the failure of the
    /// call where it gave no payload.
    pub fn from_outcome(outcome: Result<WireValue, NetworkError>) -> (r: Result<
        GeoPoint,
        NetworkError,
    >)
        ensures
            reply_view(r) == typed_reply(outcome_view(outcome), |w: Wire| Self::decoded(w)),
    {
        match outcome {
            Ok(value) => match Self::decode(&value) {
                Ok(read) => Ok(read),
                Err(e) => Err(NetworkError::Decode(e)),
            },
            Err(e) => Err(e),
        }
    }

    /// Reading back what was written gives the same point, bit for bit.
    pub proof fn lemma_round_trip(self)
        ensures
            Self::decoded(self.encoded()) == Ok::<_, DecodeError>(self),
    {
    }

    /// A record of fewer than three fields is turned down for its field
    /// count.
    pub proof fn lemma_too_few_fields(entries: Seq<(Wire, Wire)>)
        requires
            entries.len() < GEO_POINT_FIELDS,
        ensures
            Self::decoded(Wire::Pairs(entries)) == Err::<GeoPoint, _>(
                too_few(GEO_POINT_FIELDS as nat, entries.len()),
            ),
    {
        lemma_short_record(entries, GEO_POINT_FIELDS as nat);
    }

    /// Only the first three values of a record are read: neither the keys
    /// nor anything after those values changes what the record reads as.
    pub proof fn lemma_reads_by_position(f: Seq<(Wire, Wire)>, g: Seq<(Wire, Wire)>)
        requires
            same_values(f, g, GEO_POINT_FIELDS as nat),
        ensures
            Self::decoded(Wire::Pairs(f)) == Self::decoded(Wire::Pairs(g)),
    {
        assert(f[0].1 == g[0].1);
        assert(f[1].1 == g[1].1);
        assert(f[2].1 == g[2].1);
    }
}

} // verus!
