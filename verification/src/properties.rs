//! The D-Bus properties of the objects that the library serves to Bluez: the interface and
//! property names, the values, and the errors of the `org.freedesktop.DBus.Properties` calls.
use vstd::prelude::*;

use crate::flags::names_view;
use crate::strbuf::str_eq;
use crate::path::ObjectPathBuf;
use crate::uuid::UUID;

verus! {

pub const BLUEZ_DEV_IF: &'static str = "org.bluez.Device1";

pub const BLUEZ_SER_IF: &'static str = "org.bluez.GattService1";

pub const BLUEZ_CHR_IF: &'static str = "org.bluez.GattCharacteristic1";

pub const BLUEZ_DES_IF: &'static str = "org.bluez.GattDescriptor1";

pub const BLUEZ_MGR_IF: &'static str = "org.bluez.GattManager1";

pub const BLUEZ_ADV_IF: &'static str = "org.bluez.LEAdvertisement1";

pub const BLUEZ_ADP_IF: &'static str = "org.bluez.Adapter1";

pub const PROPS_IF: &'static str = "org.freedesktop.DBus.Properties";

pub const INTRO_IF: &'static str = "org.freedesktop.DBus.Introspectable";

pub const OBJMGR_IF: &'static str = "org.freedesktop.DBus.ObjectManager";

pub const BLUEZ_DEST: &'static str = "org.bluez";

pub const UUID_STR: &'static str = "UUID";

pub const HANDLE_STR: &'static str = "Handle";

pub const SERV_STR: &'static str = "Service";

pub const VAL_STR: &'static str = "Value";

pub const NA_STR: &'static str = "NotifyAcquired";

pub const NO_STR: &'static str = "Notifying";

pub const FLAG_STR: &'static str = "Flags";

pub const WA_STR: &'static str = "WriteAcquired";

pub const CHAR_STR: &'static str = "Characteristic";

pub const PRY_STR: &'static str = "Primary";

pub const INC_STR: &'static str = "Includes";

/// Why a property could not be read or written.
#[derive(Debug, PartialEq, Eq, Structural, Clone, Copy)]
pub enum PropError {
    InterfaceNotFound,
    PropertyNotFound,
    InvalidValue,
    PermissionDenied,
}

impl PropError {
    /// The D-Bus error name of the error.
    pub fn to_str(&self) -> (r: &'static str)
        ensures
            r@ == prop_error_name(*self),
    {
        match self {
            PropError::InvalidValue => "InvalidValue",
            PropError::PropertyNotFound => "PropertyNotFound",
            PropError::PermissionDenied => "PermissionDenied",
            PropError::InterfaceNotFound => "InterfaceNotFound",
        }
    }
}

/// The D-Bus error name of a property error.
pub open spec fn prop_error_name(e: PropError) -> Seq<char> {
    match e {
        PropError::InvalidValue => "InvalidValue"@,
        PropError::PropertyNotFound => "PropertyNotFound"@,
        PropError::PermissionDenied => "PermissionDenied"@,
        PropError::InterfaceNotFound => "InterfaceNotFound"@,
    }
}

/// The methods of the properties interface.
/// (`Set` is answered by `SetValue`.)
#[derive(Debug, PartialEq, Eq, Structural, Clone, Copy)]
pub enum PropCall {
    Get,
    SetValue,
    GetAll,
    /// Any other member: answered with the standard unknown-method error.
    Unknown,
}

/// The method of the properties interface that the member name `member` calls.
pub open spec fn prop_call_of(member: Seq<char>) -> PropCall {
    if member == "Get"@ {
        PropCall::Get
    } else if member == "Set"@ {
        PropCall::SetValue
    } else if member == "GetAll"@ {
        PropCall::GetAll
    } else {
        PropCall::Unknown
    }
}

/// Finds the method of the properties interface that a call is for.
pub fn prop_call(member: &str) -> (r: PropCall)
    ensures
        r == prop_call_of(member@),
{
    if str_eq(member, "Get") {
        PropCall::Get
    } else if str_eq(member, "Set") {
        PropCall::SetValue
    } else if str_eq(member, "GetAll") {
        PropCall::GetAll
    } else {
        PropCall::Unknown
    }
}

/// The D-Bus error name of the answer to a properties call whose arguments could not be
/// read.
pub const INVALID_ARGS: &'static str = "InvalidArgs";

/// The value of a property, as it goes into a D-Bus variant.
pub enum BluezOptions {
    Bool(bool),
    U16(u16),
    Str(String),
    Path(ObjectPathBuf),
    Buf(Vec<u8>),
    Paths(Vec<ObjectPathBuf>),
    Flags(Vec<&'static str>),
    UUIDs(Vec<UUID>),
    DataMap(Vec<(String, Vec<u8>)>),
    UUIDMap(Vec<(UUID, Vec<u8>)>),
}

/// What a property value holds, as mathematical values.
pub enum PropValue {
    Bool(bool),
    U16(u16),
    Str(Seq<char>),
    Path(Seq<char>),
    Buf(Seq<u8>),
    Paths(Seq<Seq<char>>),
    Flags(Seq<Seq<char>>),
    UUIDs(Seq<UUID>),
    DataMap(Seq<(Seq<char>, Seq<u8>)>),
    UUIDMap(Seq<(UUID, Seq<u8>)>),
}

impl View for BluezOptions {
    type V = PropValue;

    open spec fn view(&self) -> PropValue {
        match self {
            BluezOptions::Bool(b) => PropValue::Bool(*b),
            BluezOptions::U16(u) => PropValue::U16(*u),
            BluezOptions::Str(s) => PropValue::Str(s@),
            BluezOptions::Path(p) => PropValue::Path(p@),
            BluezOptions::Buf(b) => PropValue::Buf(b@),
            BluezOptions::Paths(ps) => PropValue::Paths(ps@.map_values(|p: ObjectPathBuf| p@)),
            BluezOptions::Flags(fs) => PropValue::Flags(names_view(fs@)),
            BluezOptions::UUIDs(us) => PropValue::UUIDs(us@),
            BluezOptions::DataMap(m) => PropValue::DataMap(
                m@.map_values(|e: (String, Vec<u8>)| (e.0@, e.1@)),
            ),
            BluezOptions::UUIDMap(m) => PropValue::UUIDMap(
                m@.map_values(|e: (UUID, Vec<u8>)| (e.0, e.1@)),
            ),
        }
    }
}

/// The view of the outcome of reading a property.
pub open spec fn prop_result_view(r: Result<BluezOptions, PropError>) -> Result<PropValue, PropError> {
    match r {
        Ok(v) => Ok(v@),
        Err(e) => Err(e),
    }
}

} // verus!
