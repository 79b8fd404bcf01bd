use crate::error::{DecodeError, SchemaMismatch};
use crate::wire::{Wire, WireKind, WireValue};
use vstd::prelude::*;

verus! {

/// Whether the vehicle keeps its front towards where it is going.
#[derive(Clone, Copy, Debug, PartialEq, Eq, Structural)]
pub enum DrivetrainType {
    MaxDegreeOfFreedom,
    ForwardOnly,
}

impl DrivetrainType {
    /// The code the wire carries for the variant.
    pub open spec fn code(self) -> int {
        match self {
            DrivetrainType::MaxDegreeOfFreedom => 0,
            DrivetrainType::ForwardOnly => 1,
        }
    }

    /// The variant that has the code.
    pub open spec fn from_code(code: int) -> Result<DrivetrainType, DecodeError> {
        if code == 0 {
            Ok(DrivetrainType::MaxDegreeOfFreedom)
        } else if code == 1 {
            Ok(DrivetrainType::ForwardOnly)
        } else {
            Err(DecodeError::UnknownVariant { code: code as i128 })
        }
    }

    /// The wire form: the code, as an integer.
    pub open spec fn encoded(self) -> Wire {
        Wire::Int(self.code())
    }

    /// What a wire value reads as: an integer that is the code of a
    /// variant.
    pub open spec fn decoded(w: Wire) -> Result<DrivetrainType, DecodeError> {
        match w {
            Wire::Int(n) => Self::from_code(n),
            _ => Err(
                DecodeError::SchemaMismatch(
                    SchemaMismatch::Shape { expected: WireKind::Int, got: w.kind() },
                ),
            ),
        }
    }

    /// Writes the value in its wire form.
    pub fn to_msgpack(&self) -> (v: WireValue)
        ensures
            v@ == self.encoded(),
    {
        match self {
            DrivetrainType::MaxDegreeOfFreedom => WireValue::Int(0),
            DrivetrainType::ForwardOnly => WireValue::Int(1),
        }
    }

    /// Reads a wire value. Nothing is read past the layout, and no input makes
    /// this fail in another way than by the error it returns.
    pub fn decode(value: &WireValue) -> (r: Result<DrivetrainType, DecodeError>)
        ensures
            r == Self::decoded(value@),
    {
        match value {
            WireValue::Int(n) => {
                if *n == 0 {
                    Ok(DrivetrainType::MaxDegreeOfFreedom)
                } else if *n == 1 {
                    Ok(DrivetrainType::ForwardOnly)
                } else {
                    Err(DecodeError::UnknownVariant { code: *n })
                }
            },
            _ => Err(
                DecodeError::SchemaMismatch(
                    SchemaMismatch::Shape { expected: WireKind::Int, got: value.kind() },
                ),
            ),
        }
    }

    /// Reading back what was written gives the same variant.
    pub proof fn lemma_round_trip(self)
        ensures
            Self::decoded(self.encoded()) == Ok::<_, DecodeError>(self),
    {
    }
}

} // verus!
