use airsim_client::clients::multi_rotor_client::{
    AUTOMATIC_LOOKAHEAD, NO_ADAPTIVE_LOOKAHEAD, PING_TIMEOUT_MS,
};
use airsim_client::transport::connection::DEFAULT_TIMEOUT_MS;
use airsim_client::transport::frame::encode_response;
use airsim_client::{
    ConnectionState, DecodeError, Delivery, DrivetrainType, Frame, GeoPoint, MultiRotorClient,
    NetworkError, Outgoing, SchemaMismatch, Vector3, WireKind, WireValue, YawMode,
};

fn text(s: &str) -> WireValue {
    WireValue::Str(s.to_string())
}

fn single(x: f32) -> WireValue {
    WireValue::Float32(x.to_bits())
}

fn client(vehicle_name: &str) -> MultiRotorClient {
    let mut client = MultiRotorClient::connect(vehicle_name);
    assert_eq!(client.state(), ConnectionState::Connecting);
    assert!(client.established());
    client
}

/// What the request asks for.
fn request(out: &Outgoing) -> (String, Vec<WireValue>) {
    match Frame::parse(out.frame.clone()) {
        Frame::Request { id, method, params } => {
            assert_eq!(id, out.request_id);
            (method, params)
        }
        other => panic!("not a request: {:?}", other),
    }
}

/// A server that answers `true` to a ping and an error to anything else.
fn stub(frame: WireValue) -> WireValue {
    match Frame::parse(frame) {
        Frame::Request { id, method, .. } if method == "ping" => {
            encode_response(id, WireValue::Nil, WireValue::Bool(true))
        }
        Frame::Request { id, method, .. } => encode_response(id, text(&method), WireValue::Nil),
        other => panic!("not a request: {:?}", other),
    }
}

fn outcome(delivery: Delivery, request_id: u64) -> Result<WireValue, NetworkError> {
    match delivery {
        Delivery::Resolved { request_id: id, outcome } => {
            assert_eq!(id, request_id);
            outcome
        }
        other => panic!("not resolved: {:?}", other),
    }
}

#[test]
fn confirm_connection_against_a_stub_that_answers_true() {
    let mut client = client("");
    let out = client.confirm_connection().unwrap();
    assert_eq!(request(&out), ("ping".to_string(), vec![]));
    assert_eq!(out.timeout_ms, PING_TIMEOUT_MS);
    let delivery = client.on_value(stub(out.frame));
    assert_eq!(MultiRotorClient::flag(outcome(delivery, out.request_id)), Ok(true));
    assert_eq!(client.pending_count(), 0);
}

#[test]
fn ping_is_a_call_without_parameters() {
    let mut client = client("drone");
    let out = client.ping().unwrap();
    assert_eq!(request(&out), ("ping".to_string(), vec![]));
    assert_eq!(out.timeout_ms, PING_TIMEOUT_MS);
    assert_eq!(out.request_id, 0);
    let out = client.reset().unwrap();
    assert_eq!(request(&out), ("reset".to_string(), vec![]));
    assert_eq!(out.timeout_ms, DEFAULT_TIMEOUT_MS);
    assert_eq!(out.request_id, 1);
}

#[test]
fn arm_disarm_sends_the_flag_and_the_vehicle() {
    let mut client = client("");
    let out = client.arm_disarm(true).unwrap();
    assert_eq!(request(&out), ("armDisarm".to_string(), vec![WireValue::Bool(true), text("")]));
    let reply = client.on_value(encode_response(out.request_id, WireValue::Nil, WireValue::Bool(true)));
    assert_eq!(MultiRotorClient::flag(outcome(reply, out.request_id)), Ok(true));
    let mut named = self::client("Drone1");
    let out = named.arm_disarm(false).unwrap();
    assert_eq!(
        request(&out),
        ("armDisarm".to_string(), vec![WireValue::Bool(false), text("Drone1")])
    );
}

#[test]
fn api_control_sends_the_flag_and_the_vehicle() {
    let mut client = client("Drone1");
    let out = client.enable_api_control(true).unwrap();
    assert_eq!(
        request(&out),
        ("enableApiControl".to_string(), vec![WireValue::Bool(true), text("Drone1")])
    );
    assert_eq!(out.timeout_ms, DEFAULT_TIMEOUT_MS);
    let out = client.is_api_control_enabled(false).unwrap();
    assert_eq!(
        request(&out),
        ("isApiControlEnabled".to_string(), vec![WireValue::Bool(false), text("Drone1")])
    );
}

#[test]
fn take_off_sends_the_timeout_and_the_vehicle() {
    let mut client = client("");
    let out = client.take_off_async(20).unwrap();
    assert_eq!(request(&out), ("takeoff".to_string(), vec![WireValue::Int(20), text("")]));
    assert_eq!(out.timeout_ms, 20_000 + DEFAULT_TIMEOUT_MS);
    let out = client.take_off_async(u64::MAX).unwrap();
    assert_eq!(
        request(&out),
        ("takeoff".to_string(), vec![WireValue::Int(u64::MAX as i128), text("")])
    );
    assert_eq!(out.timeout_ms, u64::MAX);
    let edge = (u64::MAX - DEFAULT_TIMEOUT_MS) / 1000;
    assert_eq!(client.take_off_async(edge).unwrap().timeout_ms, edge * 1000 + DEFAULT_TIMEOUT_MS);
    assert_eq!(client.take_off_async(edge + 1).unwrap().timeout_ms, u64::MAX);
}

#[test]
fn move_to_position_sends_nine_parameters_in_order() {
    let mut client = client("");
    let out = client
        .move_to_position_async(
            Vector3::new(10.0f32.to_bits(), (-5.0f32).to_bits(), (-20.0f32).to_bits()),
            3.5f32.to_bits(),
            60.0f32.to_bits(),
            DrivetrainType::ForwardOnly,
            YawMode::new(false, 90.0f32.to_bits()),
            None,
            None,
        )
        .unwrap();
    let (method, params) = request(&out);
    assert_eq!(method, "moveToPositionAsync");
    assert_eq!(params.len(), 9);
    assert_eq!(
        params,
        vec![
            single(10.0),
            single(-5.0),
            single(-20.0),
            single(3.5),
            single(60.0),
            WireValue::Int(1),
            WireValue::Pairs(vec![
                (text("is_rate"), WireValue::Bool(false)),
                (text("yaw_or_rate"), single(90.0)),
            ]),
            WireValue::Int(-1),
            WireValue::Int(0),
        ]
    );
    assert_eq!(out.timeout_ms, 60_000 + DEFAULT_TIMEOUT_MS);
    assert_eq!(AUTOMATIC_LOOKAHEAD, -1);
    assert_eq!(NO_ADAPTIVE_LOOKAHEAD, 0);
}

#[test]
fn move_to_position_sends_the_lookaheads_it_is_given() {
    let mut client = client("");
    let out = client
        .move_to_position_async(
            Vector3::new(0, 0, 0),
            0,
            0,
            DrivetrainType::MaxDegreeOfFreedom,
            YawMode::new(true, 0),
            Some(7),
            Some(i32::MIN),
        )
        .unwrap();
    let (_, params) = request(&out);
    assert_eq!(params[5], WireValue::Int(0));
    assert_eq!(params[7], WireValue::Int(7));
    assert_eq!(params[8], WireValue::Int(i32::MIN as i128));
    assert_eq!(out.timeout_ms, DEFAULT_TIMEOUT_MS);
    let reply =
        client.on_value(encode_response(out.request_id, WireValue::Nil, WireValue::Bool(false)));
    assert_eq!(MultiRotorClient::done(outcome(reply, out.request_id)), Ok(false));
}

#[test]
fn move_to_position_waits_for_the_timeout_of_the_manoeuvre() {
    let cases: [(f32, u64); 9] = [
        (0.0, 0),
        (-0.0, 0),
        (-5.0, 0),
        (f32::NAN, 0),
        (1.5, 1_500),
        (0.0004, 0),
        (0.0015, 1),
        (86_400.0, 86_400_000),
        (1.0e15, 999_999_986_991_104_000),
    ];
    for (seconds, millis) in cases {
        let mut client = client("");
        let out = client
            .move_to_position_async(
                Vector3::new(0, 0, 0),
                0,
                seconds.to_bits(),
                DrivetrainType::MaxDegreeOfFreedom,
                YawMode::new(false, 0),
                None,
                None,
            )
            .unwrap();
        assert_eq!(out.timeout_ms, millis + DEFAULT_TIMEOUT_MS, "{}", seconds);
    }
    for seconds in [f32::INFINITY, f32::MAX, 1.0e17] {
        let mut client = client("");
        let out = client
            .move_to_position_async(
                Vector3::new(0, 0, 0),
                0,
                seconds.to_bits(),
                DrivetrainType::MaxDegreeOfFreedom,
                YawMode::new(false, 0),
                None,
                None,
            )
            .unwrap();
        assert_eq!(out.timeout_ms, u64::MAX, "{}", seconds);
    }
}

#[test]
fn a_manoeuvre_is_done_as_the_server_reports() {
    assert_eq!(MultiRotorClient::done(Ok(WireValue::Bool(true))), Ok(true));
    assert_eq!(MultiRotorClient::done(Ok(WireValue::Bool(false))), Ok(false));
    assert_eq!(MultiRotorClient::done(Ok(WireValue::Nil)), Ok(true));
    assert_eq!(MultiRotorClient::done(Ok(WireValue::Int(0))), Ok(true));
    assert_eq!(
        MultiRotorClient::done(Err(NetworkError::ConnectError)),
        Err(NetworkError::ConnectError)
    );
    assert_eq!(
        MultiRotorClient::done(Err(NetworkError::RpcError {
            method: "moveToPositionAsync".to_string(),
            payload: text("no"),
        })),
        Err(NetworkError::RpcError {
            method: "moveToPositionAsync".to_string(),
            payload: text("no"),
        })
    );
}

#[test]
fn home_geo_point_is_asked_for_and_read() {
    let mut client = client("Drone1");
    let out = client.get_home_geo_point().unwrap();
    assert_eq!(request(&out), ("getHomeGeoPoint".to_string(), vec![text("Drone1")]));
    let point = GeoPoint::new(47.5f32.to_bits(), (-122.25f32).to_bits(), 100.0f32.to_bits());
    let reply = client.on_value(encode_response(out.request_id, WireValue::Nil, point.as_msgpack()));
    assert_eq!(MultiRotorClient::home_geo_point(outcome(reply, out.request_id)), Ok(point));
}

#[test]
fn a_reply_that_is_no_geo_point_is_a_decode_error() {
    assert_eq!(
        MultiRotorClient::home_geo_point(Ok(WireValue::Bool(true))),
        Err(NetworkError::Decode(DecodeError::SchemaMismatch(SchemaMismatch::Shape {
            expected: WireKind::Pairs,
            got: WireKind::Bool,
        })))
    );
    assert_eq!(
        MultiRotorClient::home_geo_point(Ok(WireValue::Pairs(vec![]))),
        Err(NetworkError::Decode(DecodeError::SchemaMismatch(SchemaMismatch::FieldCount {
            expected_fields: 3,
            got: 0,
        })))
    );
    assert_eq!(
        MultiRotorClient::home_geo_point(Err(NetworkError::ConnectionLost)),
        Err(NetworkError::ConnectionLost)
    );
}

#[test]
fn a_flag_is_set_only_by_the_boolean_true() {
    assert_eq!(MultiRotorClient::flag(Ok(WireValue::Bool(true))), Ok(true));
    assert_eq!(MultiRotorClient::flag(Ok(WireValue::Bool(false))), Ok(false));
    assert_eq!(MultiRotorClient::flag(Ok(WireValue::Nil)), Ok(false));
    assert_eq!(MultiRotorClient::flag(Ok(WireValue::Int(1))), Ok(false));
    assert_eq!(
        MultiRotorClient::flag(Err(NetworkError::TimeoutError { method: "ping".to_string(), id: 4 })),
        Err(NetworkError::TimeoutError { method: "ping".to_string(), id: 4 })
    );
}

#[test]
fn an_error_from_the_server_reaches_the_caller() {
    let mut client = client("");
    let out = client.take_off_async(5).unwrap();
    let delivery = client.on_value(stub(out.frame));
    assert_eq!(
        MultiRotorClient::flag(outcome(delivery, out.request_id)),
        Err(NetworkError::RpcError { method: "takeoff".to_string(), payload: text("takeoff") })
    );
}

#[test]
fn a_client_that_is_not_connected_refuses_every_command() {
    let mut client = MultiRotorClient::connect("");
    assert_eq!(client.ping(), Err(NetworkError::ConnectionLost));
    assert_eq!(client.connect_failed(), NetworkError::ConnectError);
    assert_eq!(client.state(), ConnectionState::Disconnected);
    assert_eq!(client.arm_disarm(true), Err(NetworkError::ConnectionLost));
    assert_eq!(client.take_off_async(1), Err(NetworkError::ConnectionLost));
    assert_eq!(client.get_home_geo_point(), Err(NetworkError::ConnectionLost));
    assert_eq!(client.call("x", vec![], None), Err(NetworkError::ConnectionLost));
    assert_eq!(client.pending_count(), 0);
}

#[test]
fn a_lost_stream_ends_the_calls_of_a_client() {
    let mut client = client("");
    let a = client.ping().unwrap();
    let b = client.arm_disarm(true).unwrap();
    assert!(client.is_pending(a.request_id));
    assert_eq!(
        client.on_timeout(a.request_id),
        Some(NetworkError::TimeoutError { method: "ping".to_string(), id: a.request_id })
    );
    assert!(!client.is_pending(a.request_id));
    assert_eq!(
        client.on_stream_end(),
        vec![Delivery::Resolved {
            request_id: b.request_id,
            outcome: Err(NetworkError::ConnectionLost)
        }]
    );
    assert_eq!(client.state(), ConnectionState::Faulted);
    assert_eq!(client.reset(), Err(NetworkError::ConnectionLost));
    assert_eq!(client.close(), Vec::<Delivery>::new());
    assert_eq!(client.state(), ConnectionState::Closed);
    assert!(!client.abandon(b.request_id));
}
