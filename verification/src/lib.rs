//! Client-side core of a msgpack-style RPC link to a vehicle simulator:
//! the wire value model, the typed codecs between wire values and domain
//! values, the request/response engine, and the per-command call builders.
//!
//! Nothing in this crate touches a socket. Whoever owns the stream feeds
//! the engine with the frames it reads and sends the frames it is handed.

pub mod codec;
pub mod error;
pub mod number;
pub mod wire;
pub mod types;
pub mod transport;
pub mod clients;

pub use clients::multi_rotor_client::MultiRotorClient;
pub use error::{DecodeError, NetworkError, NetworkResult, SchemaMismatch};
pub use transport::connection::{
    response_outcome, Connection, ConnectionState, Delivery, Outgoing, PendingCall,
};
pub use transport::frame::Frame;
pub use types::drive_train::DrivetrainType;
pub use types::environment::EnvironmentState;
pub use types::geopoint::GeoPoint;
pub use types::path::Path;
pub use types::pose::{Pose3, Position};
pub use types::quaternion::Quaternionr;
pub use types::sensors::{
    BarometerData, CompressedImage, DistanceSensorData, GnssFixType, GnssReport, GpsData,
    ImageRequest, ImageRequests, ImageType, ImuData, MagnetometerData,
};
pub use types::vector::Vector3;
pub use types::yaw_mode::YawMode;
pub use wire::{WireKind, WireValue};
