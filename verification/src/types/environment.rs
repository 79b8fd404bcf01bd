use crate::codec::{
    fields, fields_of, lemma_short_record, same_values, single_at, single_field, too_few,
};
use crate::error::{outcome_view, reply_view, typed_reply, DecodeError, NetworkError};
use crate::types::geopoint::GeoPoint;
use crate::types::vector::Vector3;
use crate::wire::{Wire, WireValue};
use vstd::prelude::*;

verus! {

/// How many fields the layout of an environment state has.
pub const ENVIRONMENT_FIELDS: usize = 6;

/// The surroundings of the vehicle at one moment.
#[derive(Clone, Copy, Debug, PartialEq, Eq, Structural)]
pub struct EnvironmentState {
    pub position: Vector3,
    pub geo_point: GeoPoint,
    pub gravity: Vector3,
    pub air_pressure: u32,
    pub air_temperature: u32,
    pub air_density: u32,
}

impl EnvironmentState {
    /// What a wire value reads as: a record of a vector, a place, a vector
    /// and three numbers, in that order.
    pub open spec fn decoded(w: Wire) -> Result<EnvironmentState, DecodeError> {
        match fields_of(w, ENVIRONMENT_FIELDS as nat) {
            Err(e) => Err(e),
            Ok(f) => match Vector3::decoded(f[0].1) {
                Err(e) => Err(e),
                Ok(position) => match GeoPoint::decoded(f[1].1) {
                    Err(e) => Err(e),
                    Ok(geo_point) => match Vector3::decoded(f[2].1) {
                        Err(e) => Err(e),
                        Ok(gravity) => match single_field(f, 3) {
                            Err(e) => Err(e),
                            Ok(air_pressure) => match single_field(f, 4) {
                                Err(e) => Err(e),
                                Ok(air_temperature) => match single_field(f, 5) {
                                    Err(e) => Err(e),
                                    Ok(air_density) => Ok(
                                        EnvironmentState {
                                            position,
                                            geo_point,
                                            gravity,
                                            air_pressure,
                                            air_temperature,
                                            air_density,
                                        },
                                    ),
                                },
                            },
                        },
                    },
                },
            },
        }
    }

    /// Reads a wire value. Nothing is read past the layout, and no input makes
    /// this fail in another way than by the error it returns.
    pub fn decode(value: &WireValue) -> (r: Result<EnvironmentState, DecodeError>)
        ensures
            r == Self::decoded(value@),
    {
        let f = fields(value, ENVIRONMENT_FIELDS)?;
        let position = Vector3::decode(&f[0].1)?;
        let geo_point = GeoPoint::decode(&f[1].1)?;
        let gravity = Vector3::decode(&f[2].1)?;
        let air_pressure: u32 = single_at(f, 3)?;
        let air_temperature: u32 = single_at(f, 4)?;
        let air_density: u32 = single_at(f, 5)?;
        Ok(
            EnvironmentState {
                position,
                geo_point,
                gravity,
                air_pressure,
                air_temperature,
                air_density,
            },
        )
    }

    /// Reads the end of a call whose payload is an environment state: the value read,
    /// the decode error where the payload is none, and the failure of the
    /// call where it gave no payload.
    pub fn from_outcome(outcome: Result<WireValue, NetworkError>) -> (r: Result<
        EnvironmentState,
        NetworkError,
    >)
        ensures
            reply_view(r) == typed_reply(outcome_view(outcome), |w: Wire| Self::decoded(w)),
    {
        match outcome {
            Ok(value) => match Self::decode(&value) {
                Ok(read) => Ok(read),
                Err(e) => Err(NetworkError::Decode(e)),
            },
            Err(e) => Err(e),
        }
    }

    /// A record of fewer than six fields is turned down for its field
    /// count.
    pub proof fn lemma_too_few_fields(entries: Seq<(Wire, Wire)>)
        requires
            entries.len() < ENVIRONMENT_FIELDS,
        ensures
            Self::decoded(Wire::Pairs(entries)) == Err::<EnvironmentState, _>(
                too_few(ENVIRONMENT_FIELDS as nat, entries.len()),
            ),
    {
        lemma_short_record(entries, ENVIRONMENT_FIELDS as nat);
    }

    /// Only the first six values of a record are read: neither the keys
    /// nor anything after those values changes what the record reads as.
    pub proof fn lemma_reads_by_position(f: Seq<(Wire, Wire)>, g: Seq<(Wire, Wire)>)
        requires
            same_values(f, g, ENVIRONMENT_FIELDS as nat),
        ensures
            Self::decoded(Wire::Pairs(f)) == Self::decoded(Wire::Pairs(g)),
    {
        assert(f[0].1 == g[0].1);
        assert(f[1].1 == g[1].1);
        assert(f[2].1 == g[2].1);
        assert(f[3].1 == g[3].1);
        assert(f[4].1 == g[4].1);
        assert(f[5].1 == g[5].1);
    }
}

} // verus!
