use crate::codec::{
    bool_at, bool_field, entry, fields, fields_of, lemma_short_record, same_values, single_at,
    single_field, too_few, unsigned_at, unsigned_field, wrong_field,
};
use crate::error::{
    outcome_view, reply_view, typed_reply, DecodeError, Failure, NetworkError, SchemaMismatch,
};
use crate::types::geopoint::GeoPoint;
use crate::types::pose::Pose3;
use crate::types::quaternion::Quaternionr;
use crate::types::vector::Vector3;
use crate::wire::{items_content, pairs_content, Wire, WireKind, WireValue};
use vstd::prelude::*;
use vstd::slice::slice_to_vec;
use vstd::string::StringSliceAdditionalSpecFns;
use vstd::utf8::encode_utf8;

verus! {

/// What a camera is asked to render.
#[derive(Clone, Copy, Debug, PartialEq, Eq, Structural)]
pub enum ImageType {
    Scene,
    DepthPlanar,
    DepthPerspective,
    DepthVis,
    DisparityNormalized,
    SurfaceNormals,
    Infrared,
    OpticalFlow,
    OpticalFlowVis,
}

impl ImageType {
    /// The code the wire carries for the variant.
    pub open spec fn code(self) -> int {
        match self {
            ImageType::Scene => 0,
            ImageType::DepthPlanar => 1,
            ImageType::DepthPerspective => 2,
            ImageType::DepthVis => 3,
            ImageType::DisparityNormalized => 4,
            ImageType::SurfaceNormals => 5,
            ImageType::Infrared => 6,
            ImageType::OpticalFlow => 7,
            ImageType::OpticalFlowVis => 8,
        }
    }

    /// The variant that has the code.
    pub open spec fn from_code(code: int) -> Result<ImageType, DecodeError> {
        if code == 0 {
            Ok(ImageType::Scene)
        } else if code == 1 {
            Ok(ImageType::DepthPlanar)
        } else if code == 2 {
            Ok(ImageType::DepthPerspective)
        } else if code == 3 {
            Ok(ImageType::DepthVis)
        } else if code == 4 {
            Ok(ImageType::DisparityNormalized)
        } else if code == 5 {
            Ok(ImageType::SurfaceNormals)
        } else if code == 6 {
            Ok(ImageType::Infrared)
        } else if code == 7 {
            Ok(ImageType::OpticalFlow)
        } else if code == 8 {
            Ok(ImageType::OpticalFlowVis)
        } else {
            Err(DecodeError::UnknownVariant { code: code as i128 })
        }
    }

    /// The wire form: the code, as an integer.
    pub open spec fn encoded(self) -> Wire {
        Wire::Int(self.code())
    }

    /// What a wire value reads as: an integer that is the code of a
    /// variant.
    pub open spec fn decoded(w: Wire) -> Result<ImageType, DecodeError> {
        match w {
            Wire::Int(n) => Self::from_code(n),
            _ => Err(
                DecodeError::SchemaMismatch(
                    SchemaMismatch::Shape { expected: WireKind::Int, got: w.kind() },
                ),
            ),
        }
    }

    /// Writes the value in its wire form.
    pub fn as_msgpack(&self) -> (v: WireValue)
        ensures
            v@ == self.encoded(),
    {
        let val: i128 = match self {
            ImageType::Scene => 0,
            ImageType::DepthPlanar => 1,
            ImageType::DepthPerspective => 2,
            ImageType::DepthVis => 3,
            ImageType::DisparityNormalized => 4,
            ImageType::SurfaceNormals => 5,
            ImageType::Infrared => 6,
            ImageType::OpticalFlow => 7,
            ImageType::OpticalFlowVis => 8,
        };
        WireValue::Int(val)
    }

    /// The variant that has the code.
    pub fn from_wire_code(code: i128) -> (r: Result<ImageType, DecodeError>)
        ensures
            r == Self::from_code(code as int),
    {
        if code == 0 {
            Ok(ImageType::Scene)
        } else if code == 1 {
            Ok(ImageType::DepthPlanar)
        } else if code == 2 {
            Ok(ImageType::DepthPerspective)
        } else if code == 3 {
            Ok(ImageType::DepthVis)
        } else if code == 4 {
            Ok(ImageType::DisparityNormalized)
        } else if code == 5 {
            Ok(ImageType::SurfaceNormals)
        } else if code == 6 {
            Ok(ImageType::Infrared)
        } else if code == 7 {
            Ok(ImageType::OpticalFlow)
        } else if code == 8 {
            Ok(ImageType::OpticalFlowVis)
        } else {
            Err(DecodeError::UnknownVariant { code })
        }
    }

    /// Reads a wire value. Nothing is read past the layout, and no input makes
    /// this fail in another way than by the error it returns.
    pub fn decode(value: &WireValue) -> (r: Result<ImageType, DecodeError>)
        ensures
            r == Self::decoded(value@),
    {
        match value {
            WireValue::Int(n) => Self::from_wire_code(*n),
            _ => Err(
                DecodeError::SchemaMismatch(
                    SchemaMismatch::Shape { expected: WireKind::Int, got: value.kind() },
                ),
            ),
        }
    }

    /// Reading back what was written gives the same variant.
    pub proof fn lemma_round_trip(self)
        ensures
            Self::decoded(self.encoded()) == Ok::<_, DecodeError>(self),
    {
    }

    /// An integer outside 0 to 8 is no image type, and the error names it.
    pub proof fn lemma_unknown_code(code: i128)
        requires
            code < 0 || code > 8,
        ensures
            Self::decoded(Wire::Int(code as int)) == Err::<ImageType, _>(
                DecodeError::UnknownVariant { code },
            ),
    {
    }
}

/// The byte that a wire value stands for in an image sent as a sequence.
pub open spec fn byte_of(w: Wire) -> Option<u8> {
    match w {
        Wire::Int(n) => if 0 <= n <= 255 {
            Some(n as u8)
        } else {
            None
        },
        _ => None,
    }
}

/// Whether `k` is the place of the first item that is no byte.
pub open spec fn is_first_non_byte(items: Seq<Wire>, k: int) -> bool {
    &&& 0 <= k < items.len()
    &&& byte_of(items[k]) is None
    &&& forall|j: int| 0 <= j < k ==> byte_of(#[trigger] items[j]) is Some
}

/// The bytes of a compressed image, as the server packed them.
#[derive(Debug, PartialEq)]
pub struct CompressedImage(pub Vec<u8>);

impl View for CompressedImage {
    type V = Seq<u8>;

    open spec fn view(&self) -> Seq<u8> {
        self.0@
    }
}

impl CompressedImage {
    /// What a wire value reads as: the bytes of a byte string, those that a
    /// string is made of in UTF-8, or those of a sequence of whole numbers
    /// from 0 to 255. In a sequence the first item that is no such number is
    /// reported by its place.
    pub open spec fn decoded(w: Wire) -> Result<Seq<u8>, DecodeError> {
        match w {
            Wire::Bytes(b) => Ok(b),
            Wire::Str(s) => Ok(encode_utf8(s)),
            Wire::Array(items) => if exists|k: int| is_first_non_byte(items, k) {
                Err(wrong_field(choose|k: int| is_first_non_byte(items, k), WireKind::Int))
            } else {
                Ok(Seq::new(items.len(), |i: int| byte_of(items[i]).unwrap()))
            },
            _ => Err(
                DecodeError::SchemaMismatch(
                    SchemaMismatch::Shape { expected: WireKind::Array, got: w.kind() },
                ),
            ),
        }
    }

    /// Reads a wire value. Nothing is read past the layout, and no input makes
    /// this fail in another way than by the error it returns.
    pub fn decode(value: &WireValue) -> (r: Result<CompressedImage, DecodeError>)
        ensures
            match r {
                Ok(image) => Self::decoded(value@) == Ok::<_, DecodeError>(image@),
                Err(e) => Self::decoded(value@) == Err::<Seq<u8>, _>(e),
            },
    {
        let mut pixels: Vec<u8> = Vec::new();
        match value {
            WireValue::Bytes(b) => {
                let mut i: usize = 0;
                while i < b.len()
                    invariant
                        i <= b@.len(),
                        pixels@ == b@.take(i as int),
                    decreases b@.len() - i,
                {
                    pixels.push(b[i]);
                    i += 1;
                    assert(b@.take(i as int) == b@.take(i - 1).push(b@[i - 1]));
                }
                assert(b@.take(i as int) == b@);
                Ok(CompressedImage(pixels))
            },
            WireValue::Str(s) => Ok(CompressedImage(slice_to_vec(s.as_str().as_bytes()))),
            WireValue::Array(items) => {
                let ghost content = items_content(items@);
                let mut i: usize = 0;
                while i < items.len()
                    invariant
                        i <= items@.len(),
                        content == items_content(items@),
                        value@ == Wire::Array(content),
                        pixels@.len() == i,
                        forall|j: int|
                            0 <= j < i ==> byte_of(#[trigger] content[j]) == Some(pixels@[j]),
                    decreases items@.len() - i,
                {
                    match &items[i] {
                        WireValue::Int(n) => {
                            if 0 <= *n && *n <= 255 {
                                pixels.push(*n as u8);
                            } else {
                                proof {
                                    lemma_first_non_byte(content, i as int);
                                }
                                return Err(
                                    DecodeError::SchemaMismatch(
                                        SchemaMismatch::Field {
                                            field_index: i,
                                            expected_kind: WireKind::Int,
                                        },
                                    ),
                                );
                            }
                        },
                        _ => {
                            proof {
                                lemma_first_non_byte(content, i as int);
                            }
                            return Err(
                                DecodeError::SchemaMismatch(
                                    SchemaMismatch::Field {
                                        field_index: i,
                                        expected_kind: WireKind::Int,
                                    },
                                ),
                            );
                        },
                    }
                    i += 1;
                }
                proof {
                    assert(!exists|k: int| is_first_non_byte(content, k));
                    assert(pixels@ =~= Seq::new(
                        content.len(),
                        |i: int| byte_of(content[i]).unwrap(),
                    ));
                }
                Ok(CompressedImage(pixels))
            },
            _ => Err(
                DecodeError::SchemaMismatch(
                    SchemaMismatch::Shape { expected: WireKind::Array, got: value.kind() },
                ),
            ),
        }
    }
}

impl CompressedImage {
    /// Reads the end of a call whose payload is an image: the image read, the
    /// decode error where the payload is none, and the failure of the call
    /// where it gave no payload.
    pub fn from_outcome(outcome: Result<WireValue, NetworkError>) -> (r: Result<
        CompressedImage,
        NetworkError,
    >)
        ensures
            match r {
                Ok(image) => typed_reply(outcome_view(outcome), |w: Wire| Self::decoded(w))
                    == Ok::<Seq<u8>, Failure>(image@),
                Err(e) => typed_reply(outcome_view(outcome), |w: Wire| Self::decoded(w))
                    == Err::<Seq<u8>, Failure>(e@),
            },
    {
        match outcome {
            Ok(value) => match Self::decode(&value) {
                Ok(read) => Ok(read),
                Err(e) => Err(NetworkError::Decode(e)),
            },
            Err(e) => Err(e),
        }
    }
}

/// The first item that is no byte is the only place that answers to that
/// description.
proof fn lemma_first_non_byte(items: Seq<Wire>, i: int)
    requires
        is_first_non_byte(items, i),
    ensures
        exists|k: int| is_first_non_byte(items, k),
        (choose|k: int| is_first_non_byte(items, k)) == i,
{
    let k = choose|k: int| is_first_non_byte(items, k);
    if k < i {
        assert(byte_of(items[k]) is Some);
    } else if i < k {
        assert(byte_of(items[i]) is Some);
    }
}

/// What one image request is, mathematically.
pub struct ImageRequestView {
    pub camera_name: Seq<char>,
    pub image_type: ImageType,
    pub pixels_as_float: bool,
    pub compress: bool,
}

impl ImageRequestView {
    /// The wire form: camera name, image type, and the two flags, in that
    /// order.
    pub open spec fn encoded(self) -> Wire {
        Wire::Pairs(
            seq![
                (Wire::Str("camera_name"@), Wire::Str(self.camera_name)),
                (Wire::Str("image_type"@), self.image_type.encoded()),
                (Wire::Str("pixels_as_float"@), Wire::Bool(self.pixels_as_float)),
                (Wire::Str("compress"@), Wire::Bool(self.compress)),
            ],
        )
    }
}

/// One image asked of one camera.
#[derive(Debug, PartialEq)]
pub struct ImageRequest {
    pub camera_name: String,
    pub image_type: ImageType,
    pub pixels_as_float: bool,
    pub compress: bool,
}

impl View for ImageRequest {
    type V = ImageRequestView;

    open spec fn view(&self) -> ImageRequestView {
        ImageRequestView {
            camera_name: self.camera_name@,
            image_type: self.image_type,
            pixels_as_float: self.pixels_as_float,
            compress: self.compress,
        }
    }
}

impl ImageRequest {
    /// Writes the value in its wire form.
    pub fn as_msgpack(&self) -> (v: WireValue)
        ensures
            v@ == self@.encoded(),
    {
        let mut entries: Vec<(WireValue, WireValue)> = Vec::new();
        entries.push(entry("camera_name", WireValue::Str(self.camera_name.clone())));
        entries.push(entry("image_type", self.image_type.as_msgpack()));
        entries.push(entry("pixels_as_float", WireValue::Bool(self.pixels_as_float)));
        entries.push(entry("compress", WireValue::Bool(self.compress)));
        assert(pairs_content(entries@) =~= self@.encoded()->Pairs_0);
        WireValue::Pairs(entries)
    }
}

/// The images asked for in one call, in order.
#[derive(Debug, PartialEq)]
pub struct ImageRequests(pub Vec<ImageRequest>);

impl ImageRequests {
    /// The wire form: a sequence of the requests, each as a request is
    /// written.
    pub open spec fn encoded(self) -> Wire {
        Wire::Array(Seq::new(self.0@.len(), |i: int| self.0@[i]@.encoded()))
    }

    /// Writes the value in its wire form.
    pub fn as_msgpack(&self) -> (v: WireValue)
        ensures
            v@ == self.encoded(),
    {
        let mut images: Vec<WireValue> = Vec::new();
        let mut i: usize = 0;
        while i < self.0.len()
            invariant
                i <= self.0@.len(),
                images@.len() == i,
                forall|j: int| 0 <= j < i ==> (#[trigger] images@[j])@ == self.0@[j]@.encoded(),
            decreases self.0@.len() - i,
        {
            images.push(self.0[i].as_msgpack());
            i += 1;
        }
        assert(items_content(images@) =~= self.encoded()->Array_0);
        WireValue::Array(images)
    }
}

/// How many fields the layout of an inertial reading has.
pub const IMU_FIELDS: usize = 4;

/// One reading of the inertial unit.
#[derive(Clone, Copy, Debug, PartialEq, Eq, Structural)]
pub struct ImuData {
    pub timestamp: u64,
    pub orientation: Quaternionr,
    /// rad/s
    pub angular_velocity: Vector3,
    /// m/s^2
    pub linear_acceleration: Vector3,
}

impl ImuData {
    /// What a wire value reads as: a record of a time stamp, a quaternion
    /// and two vectors, in that order.
    pub open spec fn decoded(w: Wire) -> Result<ImuData, DecodeError> {
        match fields_of(w, IMU_FIELDS as nat) {
            Err(e) => Err(e),
            Ok(f) => match unsigned_field(f, 0) {
                Err(e) => Err(e),
                Ok(timestamp) => match Quaternionr::decoded(f[1].1) {
                    Err(e) => Err(e),
                    Ok(orientation) => match Vector3::decoded(f[2].1) {
                        Err(e) => Err(e),
                        Ok(angular_velocity) => match Vector3::decoded(f[3].1) {
                            Err(e) => Err(e),
                            Ok(linear_acceleration) => Ok(
                                ImuData {
                                    timestamp,
                                    orientation,
                                    angular_velocity,
                                    linear_acceleration,
                                },
                            ),
                        },
                    },
                },
            },
        }
    }

    /// Reads a wire value. Nothing is read past the layout, and no input makes
    /// this fail in another way than by the error it returns.
    pub fn decode(value: &WireValue) -> (r: Result<ImuData, DecodeError>)
        ensures
            r == Self::decoded(value@),
    {
        let f = fields(value, IMU_FIELDS)?;
        let timestamp: u64 = unsigned_at(f, 0)?;
        let orientation = Quaternionr::decode(&f[1].1)?;
        let angular_velocity = Vector3::decode(&f[2].1)?;
        let linear_acceleration = Vector3::decode(&f[3].1)?;
        Ok(ImuData { timestamp, orientation, angular_velocity, linear_acceleration })
    }

    /// Reads the end of a call whose payload is an inertial reading: the value read,
    /// the decode error where the payload is none, and the failure of the
    /// call where it gave no payload.
    pub fn from_outcome(outcome: Result<WireValue, NetworkError>) -> (r: Result<
        ImuData,
        NetworkError,
    >)
        ensures
            reply_view(r) == typed_reply(outcome_view(outcome), |w: Wire| Self::decoded(w)),
    {
        match outcome {
            Ok(value) => match Self::decode(&value) {
                Ok(read) => Ok(read),
                Err(e) => Err(NetworkError::Decode(e)),
            },
            Err(e) => Err(e),
        }
    }

    /// A record of fewer than four fields is turned down for its field
    /// count.
    pub proof fn lemma_too_few_fields(entries: Seq<(Wire, Wire)>)
        requires
            entries.len() < IMU_FIELDS,
        ensures
            Self::decoded(Wire::Pairs(entries)) == Err::<ImuData, _>(
                too_few(IMU_FIELDS as nat, entries.len()),
            ),
    {
        lemma_short_record(entries, IMU_FIELDS as nat);
    }

    /// Only the first four values of a record are read: neither the keys
    /// nor anything after those values changes what the record reads as.
    pub proof fn lemma_reads_by_position(f: Seq<(Wire, Wire)>, g: Seq<(Wire, Wire)>)
        requires
            same_values(f, g, IMU_FIELDS as nat),
        ensures
            Self::decoded(Wire::Pairs(f)) == Self::decoded(Wire::Pairs(g)),
    {
        assert(f[0].1 == g[0].1);
        assert(f[1].1 == g[1].1);
        assert(f[2].1 == g[2].1);
        assert(f[3].1 == g[3].1);
    }
}

/// How many fields the layout of a distance reading has.
pub const DISTANCE_SENSOR_FIELDS: usize = 5;

/// One reading of a distance sensor; the distances are in metres.
#[derive(Clone, Copy, Debug, PartialEq, Eq, Structural)]
pub struct DistanceSensorData {
    pub timestamp: u64,
    pub distance: u32,
    pub min_distance: u32,
    pub max_distance: u32,
    pub relative_pose: Pose3,
}

impl DistanceSensorData {
    /// What a wire value reads as: a record of a time stamp, three numbers
    /// and a pose, in that order.
    pub open spec fn decoded(w: Wire) -> Result<DistanceSensorData, DecodeError> {
        match fields_of(w, DISTANCE_SENSOR_FIELDS as nat) {
            Err(e) => Err(e),
            Ok(f) => match unsigned_field(f, 0) {
                Err(e) => Err(e),
                Ok(timestamp) => match single_field(f, 1) {
                    Err(e) => Err(e),
                    Ok(distance) => match single_field(f, 2) {
                        Err(e) => Err(e),
                        Ok(min_distance) => match single_field(f, 3) {
                            Err(e) => Err(e),
                            Ok(max_distance) => match Pose3::decoded(f[4].1) {
                                Err(e) => Err(e),
                                Ok(relative_pose) => Ok(
                                    DistanceSensorData {
                                        timestamp,
                                        distance,
                                        min_distance,
                                        max_distance,
                                        relative_pose,
                                    },
                                ),
                            },
                        },
                    },
                },
            },
        }
    }

    /// Reads a wire value. Nothing is read past the layout, and no input makes
    /// this fail in another way than by the error it returns.
    pub fn decode(value: &WireValue) -> (r: Result<DistanceSensorData, DecodeError>)
        ensures
            r == Self::decoded(value@),
    {
        let f = fields(value, DISTANCE_SENSOR_FIELDS)?;
        let timestamp: u64 = unsigned_at(f, 0)?;
        let distance: u32 = single_at(f, 1)?;
        let min_distance: u32 = single_at(f, 2)?;
        let max_distance: u32 = single_at(f, 3)?;
        let relative_pose = Pose3::decode(&f[4].1)?;
        Ok(DistanceSensorData { timestamp, distance, min_distance, max_distance, relative_pose })
    }

    /// Reads the end of a call whose payload is a distance reading: the value read,
    /// the decode error where the payload is none, and the failure of the
    /// call where it gave no payload.
    pub fn from_outcome(outcome: Result<WireValue, NetworkError>) -> (r: Result<
        DistanceSensorData,
        NetworkError,
    >)
        ensures
            reply_view(r) == typed_reply(outcome_view(outcome), |w: Wire| Self::decoded(w)),
    {
        match outcome {
            Ok(value) => match Self::decode(&value) {
                Ok(read) => Ok(read),
                Err(e) => Err(NetworkError::Decode(e)),
            },
            Err(e) => Err(e),
        }
    }

    /// A record of fewer than five fields is turned down for its field
    /// count.
    pub proof fn lemma_too_few_fields(entries: Seq<(Wire, Wire)>)
        requires
            entries.len() < DISTANCE_SENSOR_FIELDS,
        ensures
            Self::decoded(Wire::Pairs(entries)) == Err::<DistanceSensorData, _>(
                too_few(DISTANCE_SENSOR_FIELDS as nat, entries.len()),
            ),
    {
        lemma_short_record(entries, DISTANCE_SENSOR_FIELDS as nat);
    }

    /// Only the first five values of a record are read: neither the keys
    /// nor anything after those values changes what the record reads as.
    pub proof fn lemma_reads_by_position(f: Seq<(Wire, Wire)>, g: Seq<(Wire, Wire)>)
        requires
            same_values(f, g, DISTANCE_SENSOR_FIELDS as nat),
        ensures
            Self::decoded(Wire::Pairs(f)) == Self::decoded(Wire::Pairs(g)),
    {
        assert(f[0].1 == g[0].1);
        assert(f[1].1 == g[1].1);
        assert(f[2].1 == g[2].1);
        assert(f[3].1 == g[3].1);
        assert(f[4].1 == g[4].1);
    }
}

/// How many fields the layout of a magnetometer reading has.
pub const MAGNETOMETER_FIELDS: usize = 2;

/// One reading of the magnetometer.
///
/// The covariance is not read from the wire: the layout of that field is
/// not known, so it is always the bits of zero.
#[derive(Clone, Copy, Debug, PartialEq, Eq, Structural)]
pub struct MagnetometerData {
    pub timestamp: u64,
    pub magnetic_field: Vector3,
    pub magnetic_field_covariance: u32,
}

impl MagnetometerData {
    /// What a wire value reads as: a record of a time stamp and a vector,
    /// in that order. A third field, if there is one, is not looked at.
    pub open spec fn decoded(w: Wire) -> Result<MagnetometerData, DecodeError> {
        match fields_of(w, MAGNETOMETER_FIELDS as nat) {
            Err(e) => Err(e),
            Ok(f) => match unsigned_field(f, 0) {
                Err(e) => Err(e),
                Ok(timestamp) => match Vector3::decoded(f[1].1) {
                    Err(e) => Err(e),
                    Ok(magnetic_field) => Ok(
                        MagnetometerData {
                            timestamp,
                            magnetic_field,
                            magnetic_field_covariance: 0,
                        },
                    ),
                },
            },
        }
    }

    /// Reads a wire value. Nothing is read past the layout, and no input makes
    /// this fail in another way than by the error it returns.
    pub fn decode(value: &WireValue) -> (r: Result<MagnetometerData, DecodeError>)
        ensures
            r == Self::decoded(value@),
    {
        let f = fields(value, MAGNETOMETER_FIELDS)?;
        let timestamp: u64 = unsigned_at(f, 0)?;
        let magnetic_field = Vector3::decode(&f[1].1)?;
        Ok(MagnetometerData { timestamp, magnetic_field, magnetic_field_covariance: 0 })
    }

    /// Reads the end of a call whose payload is a magnetometer reading: the value read,
    /// the decode error where the payload is none, and the failure of the
    /// call where it gave no payload.
    pub fn from_outcome(outcome: Result<WireValue, NetworkError>) -> (r: Result<
        MagnetometerData,
        NetworkError,
    >)
        ensures
            reply_view(r) == typed_reply(outcome_view(outcome), |w: Wire| Self::decoded(w)),
    {
        match outcome {
            Ok(value) => match Self::decode(&value) {
                Ok(read) => Ok(read),
                Err(e) => Err(NetworkError::Decode(e)),
            },
            Err(e) => Err(e),
        }
    }

    /// A record of fewer than two fields is turned down for its field
    /// count.
    pub proof fn lemma_too_few_fields(entries: Seq<(Wire, Wire)>)
        requires
            entries.len() < MAGNETOMETER_FIELDS,
        ensures
            Self::decoded(Wire::Pairs(entries)) == Err::<MagnetometerData, _>(
                too_few(MAGNETOMETER_FIELDS as nat, entries.len()),
            ),
    {
        lemma_short_record(entries, MAGNETOMETER_FIELDS as nat);
    }

    /// Only the first two values of a record are read: neither the keys
    /// nor anything after those values changes what the record reads as.
    pub proof fn lemma_reads_by_position(f: Seq<(Wire, Wire)>, g: Seq<(Wire, Wire)>)
        requires
            same_values(f, g, MAGNETOMETER_FIELDS as nat),
        ensures
            Self::decoded(Wire::Pairs(f)) == Self::decoded(Wire::Pairs(g)),
    {
        assert(f[0].1 == g[0].1);
        assert(f[1].1 == g[1].1);
    }
}

/// How many fields the layout of a barometer reading has.
pub const BAROMETER_FIELDS: usize = 4;

/// One reading of the barometer.
#[derive(Clone, Copy, Debug, PartialEq, Eq, Structural)]
pub struct BarometerData {
    pub timestamp: u64,
    pub altitude: u32,
    pub pressure: u32,
    pub qnh: u32,
}

impl BarometerData {
    /// What a wire value reads as: a record of a time stamp, the pressure,
    /// the altitude and the qnh, in that order.
    pub open spec fn decoded(w: Wire) -> Result<BarometerData, DecodeError> {
        match fields_of(w, BAROMETER_FIELDS as nat) {
            Err(e) => Err(e),
            Ok(f) => match unsigned_field(f, 0) {
                Err(e) => Err(e),
                Ok(timestamp) => match single_field(f, 1) {
                    Err(e) => Err(e),
                    Ok(pressure) => match single_field(f, 2) {
                        Err(e) => Err(e),
                        Ok(altitude) => match single_field(f, 3) {
                            Err(e) => Err(e),
                            Ok(qnh) => Ok(BarometerData { timestamp, altitude, pressure, qnh }),
                        },
                    },
                },
            },
        }
    }

    /// Reads a wire value. Nothing is read past the layout, and no input makes
    /// this fail in another way than by the error it returns.
    pub fn decode(value: &WireValue) -> (r: Result<BarometerData, DecodeError>)
        ensures
            r == Self::decoded(value@),
    {
        let f = fields(value, BAROMETER_FIELDS)?;
        let timestamp: u64 = unsigned_at(f, 0)?;
        let pressure: u32 = single_at(f, 1)?;
        let altitude: u32 = single_at(f, 2)?;
        let qnh: u32 = single_at(f, 3)?;
        Ok(BarometerData { timestamp, altitude, pressure, qnh })
    }

    /// Reads the end of a call whose payload is a barometer reading: the value read,
    /// the decode error where the payload is none, and the failure of the
    /// call where it gave no payload.
    pub fn from_outcome(outcome: Result<WireValue, NetworkError>) -> (r: Result<
        BarometerData,
        NetworkError,
    >)
        ensures
            reply_view(r) == typed_reply(outcome_view(outcome), |w: Wire| Self::decoded(w)),
    {
        match outcome {
            Ok(value) => match Self::decode(&value) {
                Ok(read) => Ok(read),
                Err(e) => Err(NetworkError::Decode(e)),
            },
            Err(e) => Err(e),
        }
    }

    /// A record of fewer than four fields is turned down for its field
    /// count.
    pub proof fn lemma_too_few_fields(entries: Seq<(Wire, Wire)>)
        requires
            entries.len() < BAROMETER_FIELDS,
        ensures
            Self::decoded(Wire::Pairs(entries)) == Err::<BarometerData, _>(
                too_few(BAROMETER_FIELDS as nat, entries.len()),
            ),
    {
        lemma_short_record(entries, BAROMETER_FIELDS as nat);
    }

    /// Only the first four values of a record are read: neither the keys
    /// nor anything after those values changes what the record reads as.
    pub proof fn lemma_reads_by_position(f: Seq<(Wire, Wire)>, g: Seq<(Wire, Wire)>)
        requires
            same_values(f, g, BAROMETER_FIELDS as nat),
        ensures
            Self::decoded(Wire::Pairs(f)) == Self::decoded(Wire::Pairs(g)),
    {
        assert(f[0].1 == g[0].1);
        assert(f[1].1 == g[1].1);
        assert(f[2].1 == g[2].1);
        assert(f[3].1 == g[3].1);
    }
}

/// How good a satellite fix is.
#[derive(Clone, Copy, Debug, PartialEq, Eq, Structural)]
pub enum GnssFixType {
    GnssFixNoFix,
    GnssFixTimeOnly,
    GnssFix2DFix,
    GnssFix3DFix,
}

impl GnssFixType {
    /// The code the wire carries for the variant.
    pub open spec fn code(self) -> int {
        match self {
            GnssFixType::GnssFixNoFix => 0,
            GnssFixType::GnssFixTimeOnly => 1,
            GnssFixType::GnssFix2DFix => 2,
            GnssFixType::GnssFix3DFix => 3,
        }
    }

    /// The variant that has the code.
    pub open spec fn from_code(code: int) -> Result<GnssFixType, DecodeError> {
        if code == 0 {
            Ok(GnssFixType::GnssFixNoFix)
        } else if code == 1 {
            Ok(GnssFixType::GnssFixTimeOnly)
        } else if code == 2 {
            Ok(GnssFixType::GnssFix2DFix)
        } else if code == 3 {
            Ok(GnssFixType::GnssFix3DFix)
        } else {
            Err(DecodeError::UnknownVariant { code: code as i128 })
        }
    }

    /// What a wire value reads as: an integer that is the code of a
    /// variant.
    pub open spec fn decoded(w: Wire) -> Result<GnssFixType, DecodeError> {
        match w {
            Wire::Int(n) => Self::from_code(n),
            _ => Err(
                DecodeError::SchemaMismatch(
                    SchemaMismatch::Shape { expected: WireKind::Int, got: w.kind() },
                ),
            ),
        }
    }

    /// What field `i` of a record reads as: a value that is no integer is
    /// reported by the place of the field.
    pub open spec fn field(f: Seq<(Wire, Wire)>, i: int) -> Result<GnssFixType, DecodeError> {
        match f[i].1 {
            Wire::Int(n) => Self::from_code(n),
            _ => Err(wrong_field(i, WireKind::Int)),
        }
    }

    /// The variant that has the code.
    pub fn from_wire_code(code: i128) -> (r: Result<GnssFixType, DecodeError>)
        ensures
            r == Self::from_code(code as int),
    {
        if code == 0 {
            Ok(GnssFixType::GnssFixNoFix)
        } else if code == 1 {
            Ok(GnssFixType::GnssFixTimeOnly)
        } else if code == 2 {
            Ok(GnssFixType::GnssFix2DFix)
        } else if code == 3 {
            Ok(GnssFixType::GnssFix3DFix)
        } else {
            Err(DecodeError::UnknownVariant { code })
        }
    }

    /// Reads a wire value. Nothing is read past the layout, and no input makes
    /// this fail in another way than by the error it returns.
    pub fn decode(value: &WireValue) -> (r: Result<GnssFixType, DecodeError>)
        ensures
            r == Self::decoded(value@),
    {
        match value {
            WireValue::Int(n) => Self::from_wire_code(*n),
            _ => Err(
                DecodeError::SchemaMismatch(
                    SchemaMismatch::Shape { expected: WireKind::Int, got: value.kind() },
                ),
            ),
        }
    }

    /// Field `i` read as a fix type.
    pub fn decode_at(entries: &Vec<(WireValue, WireValue)>, i: usize) -> (r: Result<
        GnssFixType,
        DecodeError,
    >)
        requires
            i < entries@.len(),
        ensures
            r == Self::field(pairs_content(entries@), i as int),
    {
        match &entries[i].1 {
            WireValue::Int(n) => Self::from_wire_code(*n),
            _ => Err(
                DecodeError::SchemaMismatch(
                    SchemaMismatch::Field { field_index: i, expected_kind: WireKind::Int },
                ),
            ),
        }
    }
}

/// How many fields the layout of a receiver report has.
pub const GNSS_REPORT_FIELDS: usize = 6;

/// What the satellite receiver reports.
#[derive(Clone, Copy, Debug, PartialEq, Eq, Structural)]
pub struct GnssReport {
    pub geo_point: GeoPoint,
    pub eph: u32,
    pub epv: u32,
    pub velocity: Vector3,
    pub fix_type: GnssFixType,
    pub time_utc: u64,
}

impl GnssReport {
    /// What a wire value reads as: a record of a place, two numbers, a
    /// vector, a fix type and a time, in that order.
    pub open spec fn decoded(w: Wire) -> Result<GnssReport, DecodeError> {
        match fields_of(w, GNSS_REPORT_FIELDS as nat) {
            Err(e) => Err(e),
            Ok(f) => match GeoPoint::decoded(f[0].1) {
                Err(e) => Err(e),
                Ok(geo_point) => match single_field(f, 1) {
                    Err(e) => Err(e),
                    Ok(eph) => match single_field(f, 2) {
                        Err(e) => Err(e),
                        Ok(epv) => match Vector3::decoded(f[3].1) {
                            Err(e) => Err(e),
                            Ok(velocity) => match GnssFixType::field(f, 4) {
                                Err(e) => Err(e),
                                Ok(fix_type) => match unsigned_field(f, 5) {
                                    Err(e) => Err(e),
                                    Ok(time_utc) => Ok(
                                        GnssReport {
                                            geo_point,
                                            eph,
                                            epv,
                                            velocity,
                                            fix_type,
                                            time_utc,
                                        },
                                    ),
                                },
                            },
                        },
                    },
                },
            },
        }
    }

    /// Reads a wire value. Nothing is read past the layout, and no input makes
    /// this fail in another way than by the error it returns.
    pub fn decode(value: &WireValue) -> (r: Result<GnssReport, DecodeError>)
        ensures
            r == Self::decoded(value@),
    {
        let f = fields(value, GNSS_REPORT_FIELDS)?;
        let geo_point = GeoPoint::decode(&f[0].1)?;
        let eph: u32 = single_at(f, 1)?;
        let epv: u32 = single_at(f, 2)?;
        let velocity = Vector3::decode(&f[3].1)?;
        let fix_type = GnssFixType::decode_at(f, 4)?;
        let time_utc: u64 = unsigned_at(f, 5)?;
        Ok(GnssReport { geo_point, eph, epv, velocity, fix_type, time_utc })
    }

    /// A record of fewer than six fields is turned down for its field
    /// count.
    pub proof fn lemma_too_few_fields(entries: Seq<(Wire, Wire)>)
        requires
            entries.len() < GNSS_REPORT_FIELDS,
        ensures
            Self::decoded(Wire::Pairs(entries)) == Err::<GnssReport, _>(
                too_few(GNSS_REPORT_FIELDS as nat, entries.len()),
            ),
    {
        lemma_short_record(entries, GNSS_REPORT_FIELDS as nat);
    }

    /// Only the first six values of a record are read: neither the keys
    /// nor anything after those values changes what the record reads as.
    pub proof fn lemma_reads_by_position(f: Seq<(Wire, Wire)>, g: Seq<(Wire, Wire)>)
        requires
            same_values(f, g, GNSS_REPORT_FIELDS as nat),
        ensures
            Self::decoded(Wire::Pairs(f)) == Self::decoded(Wire::Pairs(g)),
    {
        assert(f[0].1 == g[0].1);
        assert(f[1].1 == g[1].1);
        assert(f[2].1 == g[2].1);
        assert(f[3].1 == g[3].1);
        assert(f[4].1 == g[4].1);
        assert(f[5].1 == g[5].1);
    }
}

/// How many fields the layout of a satellite reading has.
pub const GPS_FIELDS: usize = 3;

/// One reading of the satellite receiver.
#[derive(Clone, Copy, Debug, PartialEq, Eq, Structural)]
pub struct GpsData {
    pub timestamp: u64,
    pub gnss_report: GnssReport,
    pub is_valid: bool,
}

impl GpsData {
    /// What a wire value reads as: a record of a time stamp, a receiver
    /// report and a flag, in that order.
    pub open spec fn decoded(w: Wire) -> Result<GpsData, DecodeError> {
        match fields_of(w, GPS_FIELDS as nat) {
            Err(e) => Err(e),
            Ok(f) => match unsigned_field(f, 0) {
                Err(e) => Err(e),
                Ok(timestamp) => match GnssReport::decoded(f[1].1) {
                    Err(e) => Err(e),
                    Ok(gnss_report) => match bool_field(f, 2) {
                        Err(e) => Err(e),
                        Ok(is_valid) => Ok(GpsData { timestamp, gnss_report, is_valid }),
                    },
                },
            },
        }
    }

    /// Reads a wire value. Nothing is read past the layout, and no input makes
    /// this fail in another way than by the error it returns.
    pub fn decode(value: &WireValue) -> (r: Result<GpsData, DecodeError>)
        ensures
            r == Self::decoded(value@),
    {
        let f = fields(value, GPS_FIELDS)?;
        let timestamp: u64 = unsigned_at(f, 0)?;
        let gnss_report = GnssReport::decode(&f[1].1)?;
        let is_valid = bool_at(f, 2)?;
        Ok(GpsData { timestamp, gnss_report, is_valid })
    }

    /// Reads the end of a call whose payload is a satellite reading: the value read,
    /// the decode error where the payload is none, and the failure of the
    /// call where it gave no payload.
    pub fn from_outcome(outcome: Result<WireValue, NetworkError>) -> (r: Result<
        GpsData,
        NetworkError,
    >)
        ensures
            reply_view(r) == typed_reply(outcome_view(outcome), |w: Wire| Self::decoded(w)),
    {
        match outcome {
            Ok(value) => match Self::decode(&value) {
                Ok(read) => Ok(read),
                Err(e) => Err(NetworkError::Decode(e)),
            },
            Err(e) => Err(e),
        }
    }

    /// A record of fewer than three fields is turned down for its field
    /// count.
    pub proof fn lemma_too_few_fields(entries: Seq<(Wire, Wire)>)
        requires
            entries.len() < GPS_FIELDS,
        ensures
            Self::decoded(Wire::Pairs(entries)) == Err::<GpsData, _>(
                too_few(GPS_FIELDS as nat, entries.len()),
            ),
    {
        lemma_short_record(entries, GPS_FIELDS as nat);
    }

    /// Only the first three values of a record are read: neither the keys
    /// nor anything after those values changes what the record reads as.
    pub proof fn lemma_reads_by_position(f: Seq<(Wire, Wire)>, g: Seq<(Wire, Wire)>)
        requires
            same_values(f, g, GPS_FIELDS as nat),
        ensures
            Self::decoded(Wire::Pairs(f)) == Self::decoded(Wire::Pairs(g)),
    {
        assert(f[0].1 == g[0].1);
        assert(f[1].1 == g[1].1);
        assert(f[2].1 == g[2].1);
    }
}

} // verus!
