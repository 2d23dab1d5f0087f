//! Bluetooth Low Energy building blocks for talking to Bluez over D-Bus: identifiers,
//! attribute values, object paths, introspection data and the decisions that local GATT
//! objects make when remote devices call them.
use vstd::prelude::*;

pub mod advertising;
pub mod att;
pub mod children;
pub mod chrc;
pub mod error;
pub mod flags;
pub mod gatt;
pub mod hex;
pub mod introspect;
pub mod keyed;
pub mod mac;
pub mod path;
pub mod properties;
pub mod serv;
pub mod server;
pub mod strbuf;
pub mod uuid;

pub use error::{IDParseError, OutOfRange};
pub use mac::MAC;
pub use uuid::{bt_base_uuid, validate_uuid, UUID};

verus! {

} // verus!
