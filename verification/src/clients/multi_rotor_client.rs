//! The commands of a multirotor.
//!
//! A command is two steps around the wait for the server. The method named
//! after the command issues the call and gives the frame to send. When the
//! call has ended, one of the three readers at the end of this file turns
//! what came back into the value the command returns.

use crate::error::{outcome_view, reply_view, Failure, NetworkError};
use crate::number::{millis_from_seconds, millis_from_seconds_spec};
use crate::transport::connection::{
    ended_by_loss, failure_view, timeout_or_default, Connection, ConnectionState, Delivery,
    Engine, Outgoing, DEFAULT_TIMEOUT_MS,
};
use crate::transport::frame::{parsed, request_frame};
use crate::types::drive_train::DrivetrainType;
use crate::types::geopoint::GeoPoint;
use crate::types::pose::Position;
use crate::types::yaw_mode::YawMode;
use crate::wire::{items_content, Wire, WireValue};
use vstd::prelude::*;

verus! {

/// How long a ping may take, in milliseconds.
pub const PING_TIMEOUT_MS: u64 = 3_000;

/// The look-ahead that leaves the choice to the server.
pub const AUTOMATIC_LOOKAHEAD: i32 = -1;

/// The adaptive look-ahead that switches it off.
pub const NO_ADAPTIVE_LOOKAHEAD: i32 = 0;

/// How long to wait for a manoeuvre that the server gives up after
/// `timeout_sec` seconds: that time and the time of an ordinary call, or
/// the longest time there is where the sum does not fit.
pub open spec fn manoeuvre_timeout(timeout_sec: u64) -> u64 {
    if timeout_sec * 1000 + DEFAULT_TIMEOUT_MS <= u64::MAX {
        (timeout_sec * 1000 + DEFAULT_TIMEOUT_MS) as u64
    } else {
        u64::MAX
    }
}

/// How long to wait for a manoeuvre that the server gives up after the
/// seconds that a 32-bit float gives, by its bits: those seconds in whole
/// milliseconds and the time of an ordinary call, or the longest time there
/// is where the sum does not fit.
pub open spec fn manoeuvre_timeout_of_single(timeout_sec: u32) -> u64 {
    if millis_from_seconds_spec(timeout_sec) + DEFAULT_TIMEOUT_MS <= u64::MAX {
        (millis_from_seconds_spec(timeout_sec) + DEFAULT_TIMEOUT_MS) as u64
    } else {
        u64::MAX
    }
}

/// The parameters of a command that takes a flag and names the vehicle.
pub open spec fn flag_params(flag: bool, vehicle_name: Seq<char>) -> Seq<Wire> {
    seq![Wire::Bool(flag), Wire::Str(vehicle_name)]
}

/// The parameters of a take-off.
pub open spec fn take_off_params(timeout_sec: u64, vehicle_name: Seq<char>) -> Seq<Wire> {
    seq![Wire::Int(timeout_sec as int), Wire::Str(vehicle_name)]
}

/// The parameters of a command that only names the vehicle.
pub open spec fn vehicle_params(vehicle_name: Seq<char>) -> Seq<Wire> {
    seq![Wire::Str(vehicle_name)]
}

/// The look-ahead that is sent: the one given, or the automatic one.
pub open spec fn lookahead_or_default(lookahead: Option<i32>) -> int {
    match lookahead {
        Some(n) => n as int,
        None => AUTOMATIC_LOOKAHEAD as int,
    }
}

/// The adaptive look-ahead that is sent: the one given, or none.
pub open spec fn adaptive_lookahead_or_default(adaptive_lookahead: Option<i32>) -> int {
    match adaptive_lookahead {
        Some(n) => n as int,
        None => NO_ADAPTIVE_LOOKAHEAD as int,
    }
}

/// The nine parameters of a move to a position, in their order: the three
/// coordinates, the velocity and the timeout as 32-bit floats, the
/// drivetrain as its code, the yaw mode as a record, and the two
/// look-aheads as integers.
pub open spec fn move_to_position_params(
    position: Position,
    velocity: u32,
    timeout_sec: u32,
    drivetrain: DrivetrainType,
    yaw_mode: YawMode,
    lookahead: Option<i32>,
    adaptive_lookahead: Option<i32>,
) -> Seq<Wire> {
    seq![
        Wire::Float32(position.x),
        Wire::Float32(position.y),
        Wire::Float32(position.z),
        Wire::Float32(velocity),
        Wire::Float32(timeout_sec),
        drivetrain.encoded(),
        yaw_mode.encoded(),
        Wire::Int(lookahead_or_default(lookahead)),
        Wire::Int(adaptive_lookahead_or_default(adaptive_lookahead)),
    ]
}

/// What a client is, mathematically: the view of [`MultiRotorClient`].
pub struct ClientView {
    pub engine: Engine,
    pub vehicle_name: Seq<char>,
}

/// What issuing a call does to a client, and what it returns.
///
/// A connected client hands out its next identifier, enters the call in its
/// table and gives the request frame with the time the call may take. Any
/// other client refuses with `ConnectionLost` and stays as it is.
pub open spec fn issued(
    before: ClientView,
    after: ClientView,
    r: Result<Outgoing, NetworkError>,
    method: Seq<char>,
    params: Seq<Wire>,
    timeout_ms: u64,
) -> bool {
    match r {
        Ok(out) => {
            &&& before.engine.can_call()
            &&& out.request_id == before.engine.next_id
            &&& out.timeout_ms == timeout_ms
            &&& out.frame@ == request_frame(out.request_id, method, params)
            &&& after == ClientView {
                engine: before.engine.issue(method),
                vehicle_name: before.vehicle_name,
            }
        },
        Err(e) => {
            &&& !before.engine.can_call()
            &&& e@ == Failure::ConnectionLost
            &&& after == before
        },
    }
}

/// What a command whose answer is a flag returns: the flag is set where
/// the answer is the boolean `true`, and only there.
pub open spec fn flag_reply(outcome: Result<Wire, Failure>) -> Result<bool, Failure> {
    match outcome {
        Ok(value) => Ok(value == Wire::Bool(true)),
        Err(e) => Err(e),
    }
}

/// What a manoeuvre returns: the boolean that the server reports, which
/// says whether the manoeuvre was finished. A report that is no boolean
/// counts as finished, since the server has answered without an error.
pub open spec fn done_reply(outcome: Result<Wire, Failure>) -> Result<bool, Failure> {
    match outcome {
        Ok(value) => match value {
            Wire::Bool(b) => Ok(b),
            _ => Ok(true),
        },
        Err(e) => Err(e),
    }
}

/// What the question for the home location returns.
pub open spec fn geo_point_reply(outcome: Result<Wire, Failure>) -> Result<GeoPoint, Failure> {
    match outcome {
        Ok(value) => match GeoPoint::decoded(value) {
            Ok(point) => Ok(point),
            Err(e) => Err(Failure::Decode(e)),
        },
        Err(e) => Err(e),
    }
}

/// A client for one multirotor on one connection.
pub struct MultiRotorClient {
    connection: Connection,
    vehicle_name: String,
}

impl View for MultiRotorClient {
    type V = ClientView;

    closed spec fn view(&self) -> ClientView {
        ClientView { engine: self.connection@, vehicle_name: self.vehicle_name@ }
    }
}

impl MultiRotorClient {
    /// A client for the vehicle of that name, the empty name standing for
    /// the default vehicle, about to open its stream. It is used once
    /// `established` has been told that the stream is open.
    pub fn connect(vehicle_name: &str) -> (client: MultiRotorClient)
        ensures
            client@.vehicle_name == vehicle_name@,
            client@.engine == (Engine {
                state: ConnectionState::Connecting,
                next_id: 0,
                calls: Seq::empty(),
            }),
            client@.engine.wf(),
    {
        let mut connection = Connection::new();
        connection.start_connecting();
        MultiRotorClient { connection, vehicle_name: vehicle_name.to_owned() }
    }

    /// The stream is open.
    pub fn established(&mut self) -> (done: bool)
        ensures
            done == (old(self)@.engine.state == ConnectionState::Connecting),
            done ==> final(self)@ == (ClientView {
                engine: Engine { state: ConnectionState::Connected, ..old(self)@.engine },
                ..old(self)@
            }),
            !done ==> final(self)@ == old(self)@,
            old(self)@.engine.wf() ==> final(self)@.engine.wf(),
    {
        self.connection.established()
    }

    /// The stream could not be opened.
    pub fn connect_failed(&mut self) -> (e: NetworkError)
        ensures
            e@ == Failure::Connect,
            old(self)@.engine.state == ConnectionState::Connecting ==> final(self)@ == (ClientView {
                engine: Engine { state: ConnectionState::Disconnected, ..old(self)@.engine },
                ..old(self)@
            }),
            old(self)@.engine.state != ConnectionState::Connecting ==> final(self)@ == old(
                self,
            )@,
            old(self)@.engine.wf() ==> final(self)@.engine.wf(),
    {
        self.connection.connect_failed()
    }

    /// Where the connection stands.
    pub fn state(&self) -> (s: ConnectionState)
        ensures
            s == self@.engine.state,
    {
        self.connection.state()
    }

    /// Whether the call `id` is outstanding.
    pub fn is_pending(&self, id: u64) -> (b: bool)
        ensures
            b == self@.engine.is_pending(id),
    {
        self.connection.is_pending(id)
    }

    /// How many calls are outstanding.
    pub fn pending_count(&self) -> (n: usize)
        ensures
            n == self@.engine.calls.len(),
    {
        self.connection.pending_count()
    }

    /// Issues a call of `method` with `params`, which may take the time
    /// named, or the default where none is named.
    pub fn call(&mut self, method: &str, params: Vec<WireValue>, timeout_ms: Option<u64>) -> (r:
        Result<Outgoing, NetworkError>)
        ensures
            issued(
                old(self)@,
                final(self)@,
                r,
                method@,
                items_content(params@),
                timeout_or_default(timeout_ms),
            ),
            old(self)@.engine.wf() ==> final(self)@.engine.wf(),
    {
        self.connection.begin_call(method, params, timeout_ms)
    }

    /// Resets the vehicle to its starting state. API control has to be
    /// enabled and the vehicle armed again afterwards.
    pub fn reset(&mut self) -> (r: Result<Outgoing, NetworkError>)
        ensures
            issued(
                old(self)@,
                final(self)@,
                r,
                "reset"@,
                Seq::empty(),
                DEFAULT_TIMEOUT_MS,
            ),
            old(self)@.engine.wf() ==> final(self)@.engine.wf(),
    {
        let params: Vec<WireValue> = Vec::new();
        assert(items_content(params@) =~= Seq::empty());
        self.call("reset", params, Some(DEFAULT_TIMEOUT_MS))
    }

    /// Asks whether the server is there.
    pub fn ping(&mut self) -> (r: Result<Outgoing, NetworkError>)
        ensures
            issued(old(self)@, final(self)@, r, "ping"@, Seq::empty(), PING_TIMEOUT_MS),
            old(self)@.engine.wf() ==> final(self)@.engine.wf(),
    {
        let params: Vec<WireValue> = Vec::new();
        assert(items_content(params@) =~= Seq::empty());
        self.call("ping", params, Some(PING_TIMEOUT_MS))
    }

    /// Checks the connection by a ping.
    pub fn confirm_connection(&mut self) -> (r: Result<Outgoing, NetworkError>)
        ensures
            issued(old(self)@, final(self)@, r, "ping"@, Seq::empty(), PING_TIMEOUT_MS),
            old(self)@.engine.wf() ==> final(self)@.engine.wf(),
    {
        self.ping()
    }

    /// The parameters of a command that takes a flag and names the vehicle.
    fn flag_and_vehicle(&self, flag: bool) -> (params: Vec<WireValue>)
        ensures
            items_content(params@) == flag_params(flag, self@.vehicle_name),
    {
        let mut params: Vec<WireValue> = Vec::new();
        params.push(WireValue::Bool(flag));
        params.push(WireValue::Str(self.vehicle_name.clone()));
        assert(items_content(params@) =~= flag_params(flag, self@.vehicle_name));
        params
    }

    /// Enables or disables API control of the vehicle.
    pub fn enable_api_control(&mut self, is_enabled: bool) -> (r: Result<Outgoing, NetworkError>)
        ensures
            issued(
                old(self)@,
                final(self)@,
                r,
                "enableApiControl"@,
                flag_params(is_enabled, old(self)@.vehicle_name),
                DEFAULT_TIMEOUT_MS,
            ),
            old(self)@.engine.wf() ==> final(self)@.engine.wf(),
    {
        let params = self.flag_and_vehicle(is_enabled);
        self.call("enableApiControl", params, Some(DEFAULT_TIMEOUT_MS))
    }

    /// Asks whether API control of the vehicle is enabled.
    pub fn is_api_control_enabled(&mut self, is_enabled: bool) -> (r: Result<
        Outgoing,
        NetworkError,
    >)
        ensures
            issued(
                old(self)@,
                final(self)@,
                r,
                "isApiControlEnabled"@,
                flag_params(is_enabled, old(self)@.vehicle_name),
                DEFAULT_TIMEOUT_MS,
            ),
            old(self)@.engine.wf() ==> final(self)@.engine.wf(),
    {
        let params = self.flag_and_vehicle(is_enabled);
        self.call("isApiControlEnabled", params, Some(DEFAULT_TIMEOUT_MS))
    }

    /// Arms the vehicle, or disarms it.
    pub fn arm_disarm(&mut self, arm: bool) -> (r: Result<Outgoing, NetworkError>)
        ensures
            issued(
                old(self)@,
                final(self)@,
                r,
                "armDisarm"@,
                flag_params(arm, old(self)@.vehicle_name),
                DEFAULT_TIMEOUT_MS,
            ),
            old(self)@.engine.wf() ==> final(self)@.engine.wf(),
    {
        let params = self.flag_and_vehicle(arm);
        self.call("armDisarm", params, Some(DEFAULT_TIMEOUT_MS))
    }

    /// Takes off to three metres above the ground. The server gives the
    /// manoeuvre up after `timeout_sec` seconds, and answers when it is over
    /// either way.
    pub fn take_off_async(&mut self, timeout_sec: u64) -> (r: Result<Outgoing, NetworkError>)
        ensures
            issued(
                old(self)@,
                final(self)@,
                r,
                "takeoff"@,
                take_off_params(timeout_sec, old(self)@.vehicle_name),
                manoeuvre_timeout(timeout_sec),
            ),
            old(self)@.engine.wf() ==> final(self)@.engine.wf(),
    {
        let mut params: Vec<WireValue> = Vec::new();
        params.push(WireValue::unsigned(timeout_sec));
        params.push(WireValue::Str(self.vehicle_name.clone()));
        assert(items_content(params@) =~= take_off_params(timeout_sec, self@.vehicle_name));
        let wait: u64 = if timeout_sec <= (u64::MAX - DEFAULT_TIMEOUT_MS) / 1000 {
            timeout_sec * 1000 + DEFAULT_TIMEOUT_MS
        } else {
            u64::MAX
        };
        self.call("takeoff", params, Some(wait))
    }

    /// Asks for the home location of the vehicle.
    pub fn get_home_geo_point(&mut self) -> (r: Result<Outgoing, NetworkError>)
        ensures
            issued(
                old(self)@,
                final(self)@,
                r,
                "getHomeGeoPoint"@,
                vehicle_params(old(self)@.vehicle_name),
                DEFAULT_TIMEOUT_MS,
            ),
            old(self)@.engine.wf() ==> final(self)@.engine.wf(),
    {
        let mut params: Vec<WireValue> = Vec::new();
        params.push(WireValue::Str(self.vehicle_name.clone()));
        assert(items_content(params@) =~= vehicle_params(self@.vehicle_name));
        self.call("getHomeGeoPoint", params, Some(DEFAULT_TIMEOUT_MS))
    }

    /// Sends the vehicle to a position.
    ///
    /// The velocity and the timeout are the bits of 32-bit floats. Without a
    /// look-ahead the automatic one is sent, and without an adaptive
    /// look-ahead none. The server answers when the manoeuvre is over or its
    /// timeout has run out, so the wait is that timeout and the time of an
    /// ordinary call.
    pub fn move_to_position_async(
        &mut self,
        position: Position,
        velocity: u32,
        timeout_sec: u32,
        drivetrain: DrivetrainType,
        yaw_mode: YawMode,
        lookahead: Option<i32>,
        adaptive_lookahead: Option<i32>,
    ) -> (r: Result<Outgoing, NetworkError>)
        ensures
            issued(
                old(self)@,
                final(self)@,
                r,
                "moveToPositionAsync"@,
                move_to_position_params(
                    position,
                    velocity,
                    timeout_sec,
                    drivetrain,
                    yaw_mode,
                    lookahead,
                    adaptive_lookahead,
                ),
                manoeuvre_timeout_of_single(timeout_sec),
            ),
            old(self)@.engine.wf() ==> final(self)@.engine.wf(),
    {
        let lookahead_sent: i32 = match lookahead {
            Some(n) => n,
            None => AUTOMATIC_LOOKAHEAD,
        };
        let adaptive_sent: i32 = match adaptive_lookahead {
            Some(n) => n,
            None => NO_ADAPTIVE_LOOKAHEAD,
        };
        let mut params: Vec<WireValue> = Vec::new();
        params.push(WireValue::Float32(position.x));
        params.push(WireValue::Float32(position.y));
        params.push(WireValue::Float32(position.z));
        params.push(WireValue::Float32(velocity));
        params.push(WireValue::Float32(timeout_sec));
        params.push(drivetrain.to_msgpack());
        params.push(yaw_mode.to_msgpack());
        params.push(WireValue::Int(lookahead_sent as i128));
        params.push(WireValue::Int(adaptive_sent as i128));
        assert(items_content(params@) =~= move_to_position_params(
            position,
            velocity,
            timeout_sec,
            drivetrain,
            yaw_mode,
            lookahead,
            adaptive_lookahead,
        ));
        let millis: u64 = millis_from_seconds(timeout_sec);
        let wait: u64 = if millis <= u64::MAX - DEFAULT_TIMEOUT_MS {
            millis + DEFAULT_TIMEOUT_MS
        } else {
            u64::MAX
        };
        self.call("moveToPositionAsync", params, Some(wait))
    }

    /// A value was read from the stream.
    pub fn on_value(&mut self, value: WireValue) -> (d: Delivery)
        ensures
            (final(self)@.engine, d@) == old(self)@.engine.deliver(parsed(value@)),
            final(self)@.vehicle_name == old(self)@.vehicle_name,
            old(self)@.engine.wf() ==> final(self)@.engine.wf(),
    {
        self.connection.on_value(value)
    }

    /// The timeout of the call `id` has run out.
    pub fn on_timeout(&mut self, id: u64) -> (r: Option<NetworkError>)
        ensures
            (final(self)@.engine, failure_view(r)) == old(self)@.engine.expire(id),
            final(self)@.vehicle_name == old(self)@.vehicle_name,
            old(self)@.engine.wf() ==> final(self)@.engine.wf(),
    {
        self.connection.on_timeout(id)
    }

    /// The caller of the call `id` has given up waiting.
    pub fn abandon(&mut self, id: u64) -> (was_pending: bool)
        ensures
            was_pending == old(self)@.engine.is_pending(id),
            final(self)@.engine == old(self)@.engine.evict(id),
            final(self)@.vehicle_name == old(self)@.vehicle_name,
            old(self)@.engine.wf() ==> final(self)@.engine.wf(),
    {
        self.connection.abandon(id)
    }

    /// The stream has ended. Every outstanding call ends with
    /// `ConnectionLost`.
    pub fn on_stream_end(&mut self) -> (lost: Vec<Delivery>)
        ensures
            final(self)@.engine == old(self)@.engine.stream_ended(),
            final(self)@.vehicle_name == old(self)@.vehicle_name,
            ended_by_loss(old(self)@.engine.pending_ids(), lost@),
            old(self)@.engine.wf() ==> final(self)@.engine.wf(),
    {
        self.connection.on_stream_end()
    }

    /// Shuts the client down. Every outstanding call ends with
    /// `ConnectionLost`.
    pub fn close(&mut self) -> (lost: Vec<Delivery>)
        ensures
            final(self)@.engine == old(self)@.engine.emptied(ConnectionState::Closed),
            final(self)@.vehicle_name == old(self)@.vehicle_name,
            ended_by_loss(old(self)@.engine.pending_ids(), lost@),
            old(self)@.engine.wf() ==> final(self)@.engine.wf(),
    {
        self.connection.close()
    }

    /// Reads the end of a call whose answer is a flag: `reset`, `ping`,
    /// `confirm_connection`, `enable_api_control`, `is_api_control_enabled`,
    /// `arm_disarm` and `take_off_async`.
    pub fn flag(outcome: Result<WireValue, NetworkError>) -> (r: Result<bool, NetworkError>)
        ensures
            reply_view(r) == flag_reply(outcome_view(outcome)),
    {
        match outcome {
            Ok(value) => match value {
                WireValue::Bool(b) => Ok(b),
                _ => Ok(false),
            },
            Err(e) => Err(e),
        }
    }

    /// Reads the end of `move_to_position_async`: the boolean that the
    /// server reports.
    pub fn done(outcome: Result<WireValue, NetworkError>) -> (r: Result<bool, NetworkError>)
        ensures
            reply_view(r) == done_reply(outcome_view(outcome)),
            forall|b: bool|
                outcome_view(outcome) == Ok::<Wire, Failure>(Wire::Bool(b)) ==> reply_view(r)
                    == Ok::<bool, Failure>(b),
    {
        match outcome {
            Ok(value) => match value {
                WireValue::Bool(b) => Ok(b),
                _ => Ok(true),
            },
            Err(e) => Err(e),
        }
    }

    /// Reads the end of `get_home_geo_point`.
    pub fn home_geo_point(outcome: Result<WireValue, NetworkError>) -> (r: Result<
        GeoPoint,
        NetworkError,
    >)
        ensures
            reply_view(r) == geo_point_reply(outcome_view(outcome)),
    {
        GeoPoint::from_outcome(outcome)
    }
}

} // verus!
