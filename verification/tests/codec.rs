use airsim_client::{
    BarometerData, CompressedImage, DecodeError, DistanceSensorData, DrivetrainType,
    EnvironmentState, GeoPoint, GnssFixType, GnssReport, GpsData, ImageRequest, ImageRequests,
    ImageType, ImuData, MagnetometerData, NetworkError, Path, Pose3, Quaternionr, SchemaMismatch,
    Vector3, WireKind, WireValue, YawMode,
};

fn key(name: &str) -> WireValue {
    WireValue::Str(name.to_string())
}

fn single(x: f32) -> WireValue {
    WireValue::Float32(x.to_bits())
}

fn double(x: f64) -> WireValue {
    WireValue::Float64(x.to_bits())
}

fn record(fields: Vec<(&str, WireValue)>) -> WireValue {
    WireValue::Pairs(fields.into_iter().map(|(k, v)| (key(k), v)).collect())
}

fn vector(x: f32, y: f32, z: f32) -> Vector3 {
    Vector3::new(x.to_bits(), y.to_bits(), z.to_bits())
}

fn vector_wire(x: f32, y: f32, z: f32) -> WireValue {
    record(vec![("x_val", single(x)), ("y_val", single(y)), ("z_val", single(z))])
}

fn quaternion_wire(w: f32, x: f32, y: f32, z: f32) -> WireValue {
    record(vec![
        ("w_val", single(w)),
        ("x_val", single(x)),
        ("y_val", single(y)),
        ("z_val", single(z)),
    ])
}

fn geo_wire(lat: f32, lon: f32, alt: f32) -> WireValue {
    record(vec![("latitude", single(lat)), ("longitude", single(lon)), ("altitude", single(alt))])
}

fn shape(expected: WireKind, got: WireKind) -> DecodeError {
    DecodeError::SchemaMismatch(SchemaMismatch::Shape { expected, got })
}

fn count(expected_fields: usize, got: usize) -> DecodeError {
    DecodeError::SchemaMismatch(SchemaMismatch::FieldCount { expected_fields, got })
}

fn field(field_index: usize, expected_kind: WireKind) -> DecodeError {
    DecodeError::SchemaMismatch(SchemaMismatch::Field { field_index, expected_kind })
}

#[test]
fn vector_is_written_as_three_singles_in_order() {
    let v = vector(1.0, -2.5, 3.25);
    assert_eq!(v.as_msgpack(), vector_wire(1.0, -2.5, 3.25));
}

#[test]
fn vector_round_trip_is_exact() {
    for bits in [0u32, 0x8000_0000, 1, 0x007f_ffff, 0x3f80_0000, 0x7f7f_ffff, 0xc2f6_e979] {
        let v = Vector3::new(bits, bits ^ 0x8000_0000, bits.wrapping_add(1));
        assert_eq!(Vector3::decode(&v.as_msgpack()), Ok(v));
    }
}

#[test]
fn quaternion_round_trip_is_exact() {
    let q = Quaternionr::new(
        1.0f32.to_bits(),
        0.5f32.to_bits(),
        (-0.25f32).to_bits(),
        f32::MIN_POSITIVE.to_bits(),
    );
    assert_eq!(q.as_msgpack(), quaternion_wire(1.0, 0.5, -0.25, f32::MIN_POSITIVE));
    assert_eq!(Quaternionr::decode(&q.as_msgpack()), Ok(q));
}

#[test]
fn geo_point_round_trip_is_exact() {
    let p = GeoPoint::new(47.641468f32.to_bits(), (-122.140165f32).to_bits(), 122.0f32.to_bits());
    assert_eq!(p.as_msgpack(), geo_wire(47.641468, -122.140165, 122.0));
    assert_eq!(GeoPoint::decode(&p.as_msgpack()), Ok(p));
}

#[test]
fn pose_round_trip_is_exact() {
    let pose = Pose3::new(
        vector(1.0, 2.0, 3.0),
        Quaternionr::new(1.0f32.to_bits(), 0, 0, 0),
    );
    assert_eq!(
        pose.as_msgpack(),
        record(vec![
            ("position", vector_wire(1.0, 2.0, 3.0)),
            ("orientation", quaternion_wire(1.0, 0.0, 0.0, 0.0)),
        ])
    );
    assert_eq!(Pose3::decode(&pose.as_msgpack()), Ok(pose));
}

#[test]
fn yaw_mode_round_trip() {
    let mode = YawMode::new(true, 45.0f32.to_bits());
    assert_eq!(
        mode.to_msgpack(),
        record(vec![("is_rate", WireValue::Bool(true)), ("yaw_or_rate", single(45.0))])
    );
    assert_eq!(YawMode::decode(&mode.to_msgpack()), Ok(mode));
    assert_eq!(
        YawMode::decode(&record(vec![("is_rate", WireValue::Int(1)), ("yaw_or_rate", single(1.0))])),
        Err(field(0, WireKind::Bool))
    );
}

#[test]
fn keys_are_never_consulted() {
    let swapped = record(vec![("z_val", single(1.0)), ("x_val", single(2.0)), ("y_val", single(3.0))]);
    assert_eq!(Vector3::decode(&swapped), Ok(vector(1.0, 2.0, 3.0)));
    let odd_keys = WireValue::Pairs(vec![
        (WireValue::Nil, single(1.0)),
        (WireValue::Int(7), single(2.0)),
        (WireValue::Bool(false), single(3.0)),
    ]);
    assert_eq!(Vector3::decode(&odd_keys), Ok(vector(1.0, 2.0, 3.0)));
}

#[test]
fn fields_past_the_layout_are_not_read() {
    let longer = record(vec![
        ("x_val", single(1.0)),
        ("y_val", single(2.0)),
        ("z_val", single(3.0)),
        ("extra", WireValue::Nil),
    ]);
    assert_eq!(Vector3::decode(&longer), Ok(vector(1.0, 2.0, 3.0)));
}

#[test]
fn any_number_reads_as_a_single() {
    let mixed = record(vec![("x_val", double(0.1)), ("y_val", WireValue::Int(-3)), ("z_val", single(2.0))]);
    assert_eq!(Vector3::decode(&mixed), Ok(vector(0.1f64 as f32, -3.0, 2.0)));
    let big = record(vec![
        ("x_val", WireValue::Int(u64::MAX as i128)),
        ("y_val", double(1.0e300)),
        ("z_val", double(-1.0e-300)),
    ]);
    assert_eq!(Vector3::decode(&big), Ok(vector(u64::MAX as f64 as f32, f32::INFINITY, -0.0)));
}

#[test]
fn a_value_that_is_no_record_is_a_shape_mismatch() {
    assert_eq!(Vector3::decode(&WireValue::Nil), Err(shape(WireKind::Pairs, WireKind::Nil)));
    assert_eq!(
        Vector3::decode(&WireValue::Array(vec![single(1.0), single(2.0), single(3.0)])),
        Err(shape(WireKind::Pairs, WireKind::Array))
    );
    assert_eq!(
        Quaternionr::decode(&WireValue::Str("q".to_string())),
        Err(shape(WireKind::Pairs, WireKind::Str))
    );
    assert_eq!(GeoPoint::decode(&single(1.0)), Err(shape(WireKind::Pairs, WireKind::Float32)));
    assert_eq!(ImuData::decode(&WireValue::Bool(true)), Err(shape(WireKind::Pairs, WireKind::Bool)));
    assert_eq!(
        GpsData::decode(&WireValue::Bytes(vec![1, 2])),
        Err(shape(WireKind::Pairs, WireKind::Bytes))
    );
    assert_eq!(BarometerData::decode(&WireValue::Int(3)), Err(shape(WireKind::Pairs, WireKind::Int)));
    assert_eq!(
        EnvironmentState::decode(&double(1.0)),
        Err(shape(WireKind::Pairs, WireKind::Float64))
    );
}

#[test]
fn a_record_with_too_few_fields_is_a_schema_mismatch() {
    let two = record(vec![("x_val", single(1.0)), ("y_val", single(2.0))]);
    assert_eq!(Vector3::decode(&two), Err(count(3, 2)));
    assert_eq!(Quaternionr::decode(&two), Err(count(4, 2)));
    assert_eq!(GeoPoint::decode(&record(vec![])), Err(count(3, 0)));
    assert_eq!(Pose3::decode(&record(vec![("position", vector_wire(0.0, 0.0, 0.0))])), Err(count(2, 1)));
    assert_eq!(ImuData::decode(&two), Err(count(4, 2)));
    assert_eq!(DistanceSensorData::decode(&two), Err(count(5, 2)));
    assert_eq!(MagnetometerData::decode(&record(vec![("time_stamp", WireValue::Int(1))])), Err(count(2, 1)));
    assert_eq!(BarometerData::decode(&two), Err(count(4, 2)));
    assert_eq!(GpsData::decode(&two), Err(count(3, 2)));
    assert_eq!(GnssReport::decode(&two), Err(count(6, 2)));
    assert_eq!(EnvironmentState::decode(&two), Err(count(6, 2)));
    assert_eq!(YawMode::decode(&record(vec![])), Err(count(2, 0)));
}

#[test]
fn a_field_of_the_wrong_kind_is_reported_by_its_place() {
    let bad = record(vec![
        ("x_val", single(1.0)),
        ("y_val", WireValue::Str("2".to_string())),
        ("z_val", WireValue::Nil),
    ]);
    assert_eq!(Vector3::decode(&bad), Err(field(1, WireKind::Float32)));
    let bad_time = record(vec![
        ("time_stamp", WireValue::Int(-1)),
        ("altitude", single(1.0)),
        ("pressure", single(2.0)),
        ("qnh", single(3.0)),
    ]);
    assert_eq!(BarometerData::decode(&bad_time), Err(field(0, WireKind::Int)));
    let float_time = record(vec![
        ("time_stamp", single(1.0)),
        ("altitude", single(1.0)),
        ("pressure", single(2.0)),
        ("qnh", single(3.0)),
    ]);
    assert_eq!(BarometerData::decode(&float_time), Err(field(0, WireKind::Int)));
    let too_big = record(vec![
        ("time_stamp", WireValue::Int(u64::MAX as i128 + 1)),
        ("altitude", single(1.0)),
        ("pressure", single(2.0)),
        ("qnh", single(3.0)),
    ]);
    assert_eq!(BarometerData::decode(&too_big), Err(field(0, WireKind::Int)));
}

#[test]
fn image_type_codes() {
    let all = [
        ImageType::Scene,
        ImageType::DepthPlanar,
        ImageType::DepthPerspective,
        ImageType::DepthVis,
        ImageType::DisparityNormalized,
        ImageType::SurfaceNormals,
        ImageType::Infrared,
        ImageType::OpticalFlow,
        ImageType::OpticalFlowVis,
    ];
    for (code, image_type) in all.iter().enumerate() {
        assert_eq!(image_type.as_msgpack(), WireValue::Int(code as i128));
        assert_eq!(ImageType::decode(&WireValue::Int(code as i128)), Ok(*image_type));
        assert_eq!(ImageType::from_wire_code(code as i128), Ok(*image_type));
    }
}

#[test]
fn image_type_nine_is_an_unknown_variant() {
    assert_eq!(ImageType::decode(&WireValue::Int(9)), Err(DecodeError::UnknownVariant { code: 9 }));
    assert_eq!(ImageType::decode(&WireValue::Int(-1)), Err(DecodeError::UnknownVariant { code: -1 }));
    assert_eq!(
        ImageType::decode(&WireValue::Int(i128::MAX)),
        Err(DecodeError::UnknownVariant { code: i128::MAX })
    );
    assert_eq!(ImageType::decode(&single(1.0)), Err(shape(WireKind::Int, WireKind::Float32)));
}

#[test]
fn drivetrain_codes() {
    assert_eq!(DrivetrainType::MaxDegreeOfFreedom.to_msgpack(), WireValue::Int(0));
    assert_eq!(DrivetrainType::ForwardOnly.to_msgpack(), WireValue::Int(1));
    assert_eq!(DrivetrainType::decode(&WireValue::Int(0)), Ok(DrivetrainType::MaxDegreeOfFreedom));
    assert_eq!(DrivetrainType::decode(&WireValue::Int(1)), Ok(DrivetrainType::ForwardOnly));
    assert_eq!(DrivetrainType::decode(&WireValue::Int(2)), Err(DecodeError::UnknownVariant { code: 2 }));
    assert_eq!(DrivetrainType::decode(&WireValue::Nil), Err(shape(WireKind::Int, WireKind::Nil)));
}

#[test]
fn gnss_fix_type_codes() {
    assert_eq!(GnssFixType::decode(&WireValue::Int(0)), Ok(GnssFixType::GnssFixNoFix));
    assert_eq!(GnssFixType::decode(&WireValue::Int(1)), Ok(GnssFixType::GnssFixTimeOnly));
    assert_eq!(GnssFixType::decode(&WireValue::Int(2)), Ok(GnssFixType::GnssFix2DFix));
    assert_eq!(GnssFixType::decode(&WireValue::Int(3)), Ok(GnssFixType::GnssFix3DFix));
    assert_eq!(GnssFixType::decode(&WireValue::Int(4)), Err(DecodeError::UnknownVariant { code: 4 }));
    assert_eq!(GnssFixType::decode(&WireValue::Bool(true)), Err(shape(WireKind::Int, WireKind::Bool)));
}

#[test]
fn compressed_image_from_bytes_and_from_a_sequence() {
    assert_eq!(
        CompressedImage::decode(&WireValue::Bytes(vec![0x89, 0x50, 0x4e, 0x47])),
        Ok(CompressedImage(vec![0x89, 0x50, 0x4e, 0x47]))
    );
    assert_eq!(CompressedImage::decode(&WireValue::Bytes(vec![])), Ok(CompressedImage(vec![])));
    assert_eq!(
        CompressedImage::decode(&WireValue::Array(vec![
            WireValue::Int(0),
            WireValue::Int(255),
            WireValue::Int(7)
        ])),
        Ok(CompressedImage(vec![0, 255, 7]))
    );
    assert_eq!(CompressedImage::decode(&WireValue::Array(vec![])), Ok(CompressedImage(vec![])));
}

#[test]
fn compressed_image_from_a_string() {
    assert_eq!(
        CompressedImage::decode(&WireValue::Str("PNG".to_string())),
        Ok(CompressedImage(vec![0x50, 0x4e, 0x47]))
    );
    assert_eq!(
        CompressedImage::decode(&WireValue::Str("\u{e9}\u{20ac}".to_string())),
        Ok(CompressedImage(vec![0xc3, 0xa9, 0xe2, 0x82, 0xac]))
    );
    assert_eq!(CompressedImage::decode(&WireValue::Str(String::new())), Ok(CompressedImage(vec![])));
}

#[test]
fn a_reply_is_read_as_the_record_it_holds() {
    let wire = record(vec![
        ("a", WireValue::Int(3)),
        ("b", single(101_325.0)),
        ("c", single(122.0)),
        ("d", single(1013.25)),
    ]);
    assert_eq!(
        BarometerData::from_outcome(Ok(wire)),
        Ok(BarometerData {
            timestamp: 3,
            altitude: 122.0f32.to_bits(),
            pressure: 101_325.0f32.to_bits(),
            qnh: 1013.25f32.to_bits(),
        })
    );
    assert_eq!(
        BarometerData::from_outcome(Ok(WireValue::Nil)),
        Err(NetworkError::Decode(shape(WireKind::Pairs, WireKind::Nil)))
    );
    assert_eq!(ImuData::from_outcome(Ok(record(vec![]))), Err(NetworkError::Decode(count(4, 0))));
    assert_eq!(
        GpsData::from_outcome(Err(NetworkError::ConnectionLost)),
        Err(NetworkError::ConnectionLost)
    );
    assert_eq!(
        EnvironmentState::from_outcome(Err(NetworkError::TimeoutError {
            method: "simGetGroundTruthEnvironment".to_string(),
            id: 8,
        })),
        Err(NetworkError::TimeoutError {
            method: "simGetGroundTruthEnvironment".to_string(),
            id: 8
        })
    );
    assert_eq!(
        MagnetometerData::from_outcome(Ok(WireValue::Bool(true))),
        Err(NetworkError::Decode(shape(WireKind::Pairs, WireKind::Bool)))
    );
    assert_eq!(
        DistanceSensorData::from_outcome(Ok(WireValue::Array(vec![]))),
        Err(NetworkError::Decode(shape(WireKind::Pairs, WireKind::Array)))
    );
    assert_eq!(
        GeoPoint::from_outcome(Ok(geo_wire(1.0, 2.0, 3.0))),
        Ok(GeoPoint::new(1.0f32.to_bits(), 2.0f32.to_bits(), 3.0f32.to_bits()))
    );
    assert_eq!(
        CompressedImage::from_outcome(Ok(WireValue::Bytes(vec![1, 2]))),
        Ok(CompressedImage(vec![1, 2]))
    );
    assert_eq!(
        CompressedImage::from_outcome(Ok(WireValue::Nil)),
        Err(NetworkError::Decode(shape(WireKind::Array, WireKind::Nil)))
    );
}

#[test]
fn compressed_image_rejects_what_is_no_byte() {
    assert_eq!(
        CompressedImage::decode(&WireValue::Array(vec![
            WireValue::Int(1),
            WireValue::Int(256),
            WireValue::Nil
        ])),
        Err(field(1, WireKind::Int))
    );
    assert_eq!(
        CompressedImage::decode(&WireValue::Array(vec![WireValue::Int(-1)])),
        Err(field(0, WireKind::Int))
    );
    assert_eq!(
        CompressedImage::decode(&WireValue::Array(vec![WireValue::Int(1), single(2.0)])),
        Err(field(1, WireKind::Int))
    );
    assert_eq!(CompressedImage::decode(&WireValue::Nil), Err(shape(WireKind::Array, WireKind::Nil)));
    assert_eq!(
        CompressedImage::decode(&record(vec![])),
        Err(shape(WireKind::Array, WireKind::Pairs))
    );
}

#[test]
fn image_request_is_written_in_order() {
    let request = ImageRequest {
        camera_name: "front_center".to_string(),
        image_type: ImageType::DepthVis,
        pixels_as_float: false,
        compress: true,
    };
    let wire = record(vec![
        ("camera_name", key("front_center")),
        ("image_type", WireValue::Int(3)),
        ("pixels_as_float", WireValue::Bool(false)),
        ("compress", WireValue::Bool(true)),
    ]);
    assert_eq!(request.as_msgpack(), wire);
    let second = ImageRequest {
        camera_name: "0".to_string(),
        image_type: ImageType::Scene,
        pixels_as_float: true,
        compress: false,
    };
    let second_wire = second.as_msgpack();
    assert_eq!(
        ImageRequests(vec![request, second]).as_msgpack(),
        WireValue::Array(vec![wire, second_wire])
    );
    assert_eq!(ImageRequests(vec![]).as_msgpack(), WireValue::Array(vec![]));
}

#[test]
fn path_is_a_sequence_of_vectors() {
    let path = Path(vec![vector(1.0, 2.0, 3.0), vector(4.0, 5.0, 6.0)]);
    assert_eq!(
        path.to_msgpack(),
        WireValue::Array(vec![vector_wire(1.0, 2.0, 3.0), vector_wire(4.0, 5.0, 6.0)])
    );
    assert_eq!(Path(vec![]).to_msgpack(), WireValue::Array(vec![]));
}

#[test]
fn imu_data_is_read_by_position() {
    let wire = record(vec![
        ("time_stamp", WireValue::Int(1_700_000_000_000)),
        ("orientation", quaternion_wire(1.0, 0.0, 0.0, 0.0)),
        ("angular_velocity", vector_wire(0.1, 0.2, 0.3)),
        ("linear_acceleration", vector_wire(0.0, 0.0, -9.8)),
    ]);
    assert_eq!(
        ImuData::decode(&wire),
        Ok(ImuData {
            timestamp: 1_700_000_000_000,
            orientation: Quaternionr::new(1.0f32.to_bits(), 0, 0, 0),
            angular_velocity: vector(0.1, 0.2, 0.3),
            linear_acceleration: vector(0.0, 0.0, -9.8),
        })
    );
}

#[test]
fn an_error_inside_a_part_is_reported_as_the_part_reports_it() {
    let wire = record(vec![
        ("time_stamp", WireValue::Int(1)),
        ("orientation", quaternion_wire(1.0, 0.0, 0.0, 0.0)),
        ("angular_velocity", record(vec![("x_val", single(0.1))])),
        ("linear_acceleration", WireValue::Nil),
    ]);
    assert_eq!(ImuData::decode(&wire), Err(count(3, 1)));
    let wire = record(vec![
        ("time_stamp", WireValue::Int(1)),
        ("orientation", WireValue::Int(4)),
        ("angular_velocity", vector_wire(0.1, 0.2, 0.3)),
        ("linear_acceleration", vector_wire(0.1, 0.2, 0.3)),
    ]);
    assert_eq!(ImuData::decode(&wire), Err(shape(WireKind::Pairs, WireKind::Int)));
}

#[test]
fn distance_sensor_data_is_read_by_position() {
    let wire = record(vec![
        ("time_stamp", WireValue::Int(5)),
        ("distance", single(12.5)),
        ("min_distance", single(0.2)),
        ("max_distance", double(40.0)),
        (
            "relative_pose",
            record(vec![
                ("position", vector_wire(0.0, 0.0, -1.0)),
                ("orientation", quaternion_wire(1.0, 0.0, 0.0, 0.0)),
            ]),
        ),
    ]);
    assert_eq!(
        DistanceSensorData::decode(&wire),
        Ok(DistanceSensorData {
            timestamp: 5,
            distance: 12.5f32.to_bits(),
            min_distance: 0.2f32.to_bits(),
            max_distance: 40.0f32.to_bits(),
            relative_pose: Pose3::new(
                vector(0.0, 0.0, -1.0),
                Quaternionr::new(1.0f32.to_bits(), 0, 0, 0)
            ),
        })
    );
}

#[test]
fn magnetometer_covariance_is_always_zero() {
    let wire = record(vec![
        ("time_stamp", WireValue::Int(9)),
        ("magnetic_field_body", vector_wire(0.25, 0.0, 0.5)),
        ("magnetic_field_covariance", WireValue::Array(vec![single(1.0)])),
    ]);
    assert_eq!(
        MagnetometerData::decode(&wire),
        Ok(MagnetometerData {
            timestamp: 9,
            magnetic_field: vector(0.25, 0.0, 0.5),
            magnetic_field_covariance: 0.0f32.to_bits(),
        })
    );
}

#[test]
fn barometer_fields_come_as_time_pressure_altitude_qnh() {
    let wire = record(vec![
        ("a", WireValue::Int(3)),
        ("b", single(101_325.0)),
        ("c", single(122.0)),
        ("d", single(1013.25)),
    ]);
    assert_eq!(
        BarometerData::decode(&wire),
        Ok(BarometerData {
            timestamp: 3,
            altitude: 122.0f32.to_bits(),
            pressure: 101_325.0f32.to_bits(),
            qnh: 1013.25f32.to_bits(),
        })
    );
}

fn gnss_wire(fix: WireValue) -> WireValue {
    record(vec![
        ("geo_point", geo_wire(47.5, -122.25, 100.0)),
        ("eph", single(0.5)),
        ("epv", single(0.75)),
        ("velocity", vector_wire(1.0, 0.0, 0.0)),
        ("fix_type", fix),
        ("time_utc", WireValue::Int(1_600_000_000)),
    ])
}

#[test]
fn gps_data_is_read_by_position() {
    let wire = record(vec![
        ("time_stamp", WireValue::Int(77)),
        ("gnss", gnss_wire(WireValue::Int(3))),
        ("is_valid", WireValue::Bool(true)),
    ]);
    assert_eq!(
        GpsData::decode(&wire),
        Ok(GpsData {
            timestamp: 77,
            gnss_report: GnssReport {
                geo_point: GeoPoint::new(
                    47.5f32.to_bits(),
                    (-122.25f32).to_bits(),
                    100.0f32.to_bits()
                ),
                eph: 0.5f32.to_bits(),
                epv: 0.75f32.to_bits(),
                velocity: vector(1.0, 0.0, 0.0),
                fix_type: GnssFixType::GnssFix3DFix,
                time_utc: 1_600_000_000,
            },
            is_valid: true,
        })
    );
}

#[test]
fn a_fix_type_out_of_range_is_an_unknown_variant() {
    assert_eq!(
        GnssReport::decode(&gnss_wire(WireValue::Int(4))),
        Err(DecodeError::UnknownVariant { code: 4 })
    );
    assert_eq!(
        GnssReport::decode(&gnss_wire(WireValue::Int(-2))),
        Err(DecodeError::UnknownVariant { code: -2 })
    );
    assert_eq!(GnssReport::decode(&gnss_wire(single(3.0))), Err(field(4, WireKind::Int)));
    let wire = record(vec![
        ("time_stamp", WireValue::Int(77)),
        ("gnss", gnss_wire(WireValue::Int(9))),
        ("is_valid", WireValue::Bool(true)),
    ]);
    assert_eq!(GpsData::decode(&wire), Err(DecodeError::UnknownVariant { code: 9 }));
    let wire = record(vec![
        ("time_stamp", WireValue::Int(77)),
        ("gnss", gnss_wire(WireValue::Int(1))),
        ("is_valid", WireValue::Nil),
    ]);
    assert_eq!(GpsData::decode(&wire), Err(field(2, WireKind::Bool)));
}

#[test]
fn environment_state_is_read_by_position() {
    let wire = record(vec![
        ("position", vector_wire(0.0, 0.0, -10.0)),
        ("geo_point", geo_wire(47.5, -122.25, 110.0)),
        ("gravity", vector_wire(0.0, 0.0, 9.80665)),
        ("air_pressure", single(101_200.0)),
        ("temperature", single(288.0)),
        ("air_density", double(1.225)),
    ]);
    assert_eq!(
        EnvironmentState::decode(&wire),
        Ok(EnvironmentState {
            position: vector(0.0, 0.0, -10.0),
            geo_point: GeoPoint::new(47.5f32.to_bits(), (-122.25f32).to_bits(), 110.0f32.to_bits()),
            gravity: vector(0.0, 0.0, 9.80665),
            air_pressure: 101_200.0f32.to_bits(),
            air_temperature: 288.0f32.to_bits(),
            air_density: (1.225f64 as f32).to_bits(),
        })
    );
}

#[test]
fn a_copy_has_the_same_content() {
    let value = record(vec![
        ("a", WireValue::Array(vec![WireValue::Nil, WireValue::Bool(true), WireValue::Int(-5)])),
        ("b", WireValue::Bytes(vec![1, 2, 3])),
        ("c", record(vec![("d", single(1.5)), ("e", double(2.5))])),
    ]);
    assert_eq!(value.duplicate(), value);
    assert_eq!(value.clone(), value);
    assert_eq!(value.kind(), WireKind::Pairs);
    assert_eq!(WireValue::text("abc"), WireValue::Str("abc".to_string()));
    assert_eq!(WireValue::unsigned(u64::MAX), WireValue::Int(u64::MAX as i128));
    assert_eq!(WireValue::signed(i64::MIN), WireValue::Int(i64::MIN as i128));
}
