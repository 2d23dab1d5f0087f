//! A local characteristic once its application is registered: what it answers to the calls
//! that Bluez makes on behalf of remote devices, and how its notification and write sessions
//! go. The sockets themselves and the D-Bus messages stay with the caller, which hands over
//! what it read and performs what it is told.
use vstd::prelude::*;

use crate::att::{value_gives, value_ready, AttValue, ValOrFn, MAX_CHAR_LEN};
use crate::flags::{char_flag_names, CharFlags};
use crate::gatt::Characteristic;
use crate::keyed::UuidKeyed;
use crate::path::{parent_spec, ObjectPath};
use crate::properties::{
    BluezOptions, PropError, PropValue, BLUEZ_CHR_IF, FLAG_STR, HANDLE_STR, NA_STR, NO_STR,
    SERV_STR, UUID_STR, VAL_STR, WA_STR,
};
use crate::strbuf::str_eq;
use crate::uuid::{uuid_text, UUID};

verus! {

/// The largest MTU that a notification or write session uses.
pub const MAX_SESSION_MTU: usize = 517;

/// How changes of the value reach the remote device.
#[derive(Clone, Copy, Debug, PartialEq, Eq, Structural)]
pub enum NotifyState {
    /// Not notifying.
    Off,
    /// Through a socket acquired with `AcquireNotify`, with its MTU.
    Socket(usize),
    /// Through `PropertiesChanged` signals, after `StartNotify`.
    Signal,
}

/// What the notification callback of a characteristic asks for.
#[derive(Debug)]
pub enum ShouldNotify {
    /// Notify the current value.
    Yes,
    /// Notify this value in place of the current one.
    WithSpecialValue(AttValue),
    /// Do not notify.
    No,
}

impl ShouldNotify {
    /// The notification that the answer asks for: none, or one with the value to send in
    /// place of the current value, if there is such a value.
    pub fn notification(self) -> (r: Option<Option<AttValue>>)
        ensures
            match self {
                ShouldNotify::Yes => r == Some(None::<AttValue>),
                ShouldNotify::WithSpecialValue(v) => r == Some(Some(v)),
                ShouldNotify::No => r is None,
            },
    {
        match self {
            ShouldNotify::Yes => Some(None),
            ShouldNotify::WithSpecialValue(v) => Some(Some(v)),
            ShouldNotify::No => None,
        }
    }
}

/// The state of a registered characteristic.
pub struct ChrcData<F> {
    /// The number of descriptors under the characteristic.
    pub children: usize,
    pub value: ValOrFn<F>,
    pub uuid: UUID,
    pub notify: NotifyState,
    pub flags: CharFlags,
    /// The MTU of the write session acquired with `AcquireWrite`, if there is one.
    pub write_fd: Option<usize>,
    pub handle: u16,
}

/// The methods of a characteristic, by interface and member name.
#[derive(Clone, Copy, Debug, PartialEq, Eq, Structural)]
pub enum ChrcMethod {
    Properties,
    Introspect,
    ReadValue,
    WriteValue,
    AcquireNotify,
    AcquireWrite,
    StartNotify,
    StopNotify,
    /// A member of the characteristic interface that the characteristic does not have.
    UnknownMethod,
    /// An interface that the characteristic does not have.
    UnknownInterface,
}

/// The properties of a characteristic.
#[derive(Clone, Copy, Debug, PartialEq, Eq, Structural)]
pub enum ChrcProp {
    Uuid,
    Handle,
    Service,
    Value,
    NotifyAcquired,
    Notifying,
    Flags,
    WriteAcquired,
}

/// The method that a call on `interface` with `member` is for.
pub open spec fn chrc_method_of(interface: Seq<char>, member: Seq<char>) -> ChrcMethod {
    if interface == crate::properties::PROPS_IF@ {
        ChrcMethod::Properties
    } else if interface == crate::properties::INTRO_IF@ {
        ChrcMethod::Introspect
    } else if interface == BLUEZ_CHR_IF@ {
        if member == "ReadValue"@ {
            ChrcMethod::ReadValue
        } else if member == "WriteValue"@ {
            ChrcMethod::WriteValue
        } else if member == "AcquireNotify"@ {
            ChrcMethod::AcquireNotify
        } else if member == "AcquireWrite"@ {
            ChrcMethod::AcquireWrite
        } else if member == "StartNotify"@ {
            ChrcMethod::StartNotify
        } else if member == "StopNotify"@ {
            ChrcMethod::StopNotify
        } else {
            ChrcMethod::UnknownMethod
        }
    } else {
        ChrcMethod::UnknownInterface
    }
}

/// The property named `prop`, if the characteristic has one by that name.
pub open spec fn chrc_prop_of(prop: Seq<char>) -> Option<ChrcProp> {
    if prop == UUID_STR@ {
        Some(ChrcProp::Uuid)
    } else if prop == HANDLE_STR@ {
        Some(ChrcProp::Handle)
    } else if prop == SERV_STR@ {
        Some(ChrcProp::Service)
    } else if prop == VAL_STR@ {
        Some(ChrcProp::Value)
    } else if prop == NA_STR@ {
        Some(ChrcProp::NotifyAcquired)
    } else if prop == NO_STR@ {
        Some(ChrcProp::Notifying)
    } else if prop == FLAG_STR@ {
        Some(ChrcProp::Flags)
    } else if prop == WA_STR@ {
        Some(ChrcProp::WriteAcquired)
    } else {
        None
    }
}

/// The name by which Bluez asks for the property `p`.
pub open spec fn chrc_prop_text(p: ChrcProp) -> Seq<char> {
    match p {
        ChrcProp::Uuid => "UUID"@,
        ChrcProp::Handle => "Handle"@,
        ChrcProp::Service => "Service"@,
        ChrcProp::Value => "Value"@,
        ChrcProp::NotifyAcquired => "NotifyAcquired"@,
        ChrcProp::Notifying => "Notifying"@,
        ChrcProp::Flags => "Flags"@,
        ChrcProp::WriteAcquired => "WriteAcquired"@,
    }
}

/// A property is found by its name, and a name that finds a property is that property's
/// name.
pub proof fn lemma_chrc_prop_text(p: ChrcProp, prop: Seq<char>)
    ensures
        chrc_prop_of(chrc_prop_text(p)) == Some(p),
        chrc_prop_of(prop) == Some(p) ==> prop == chrc_prop_text(p),
{
    reveal_strlit("UUID");
    reveal_strlit("Handle");
    reveal_strlit("Service");
    reveal_strlit("Value");
    reveal_strlit("NotifyAcquired");
    reveal_strlit("Notifying");
    reveal_strlit("Flags");
    reveal_strlit("WriteAcquired");
    assert("UUID"@.len() == 4 && "UUID"@[0] == 'U' && "UUID"@[1] == 'U');
    assert("Handle"@.len() == 6 && "Handle"@[0] == 'H' && "Handle"@[1] == 'a');
    assert("Service"@.len() == 7 && "Service"@[0] == 'S' && "Service"@[1] == 'e');
    assert("Value"@.len() == 5 && "Value"@[0] == 'V' && "Value"@[1] == 'a');
    assert("NotifyAcquired"@.len() == 14 && "NotifyAcquired"@[0] == 'N' && "NotifyAcquired"@[1] == 'o');
    assert("Notifying"@.len() == 9 && "Notifying"@[0] == 'N' && "Notifying"@[1] == 'o');
    assert("Flags"@.len() == 5 && "Flags"@[0] == 'F' && "Flags"@[1] == 'l');
    assert("WriteAcquired"@.len() == 13 && "WriteAcquired"@[0] == 'W' && "WriteAcquired"@[1] == 'r');
}

/// Reading from an offset gives the bytes of the value from that offset on, in order (none
/// past its end), and no offset reads from the start.
pub proof fn lemma_read_from_offset(v: Seq<u8>, off: Option<u16>)
    ensures
        offset_of(off) == match off {
            Some(o) => o as int,
            None => 0,
        },
        offset_of(off) <= v.len() ==> tail_from(v, offset_of(off)).len() == v.len() - offset_of(
            off,
        ) && forall|i: int|
            0 <= i < v.len() - offset_of(off) ==> #[trigger] tail_from(v, offset_of(off))[i] == v[i
                + offset_of(off)],
        offset_of(off) > v.len() ==> tail_from(v, offset_of(off)).len() == 0,
        off is None ==> tail_from(v, offset_of(off)) == v,
{
    if off is None {
        assert(v.skip(0) =~= v);
    }
}

/// The characteristic may be read.
pub open spec fn chrc_readable(f: CharFlags) -> bool {
    f.read || f.secure_read || f.encrypt_read || f.encrypt_auth_read
}

/// The characteristic may be written.
pub open spec fn chrc_writable(f: CharFlags) -> bool {
    f.write || f.write_wo_response || f.encrypt_write || f.encrypt_auth_write
}

/// The bytes of `v` from `offset` on (none when `offset` is past the end).
pub open spec fn tail_from(v: Seq<u8>, offset: int) -> Seq<u8> {
    if offset <= v.len() {
        v.skip(offset)
    } else {
        Seq::empty()
    }
}

/// The offset given with a call (0 when none is given).
pub open spec fn offset_of(off: Option<u16>) -> int {
    match off {
        Some(o) => o as int,
        None => 0,
    }
}

/// Writing the bytes `a` at `offset` into the value `v` stays inside it: the offset is not
/// past the end of `v`, and the bytes end within `MAX_CHAR_LEN`.
pub open spec fn write_fits(v: AttValue, a: AttValue, offset: int) -> bool {
    offset <= v@.len() && offset + a@.len() <= MAX_CHAR_LEN
}

/// The MTU of a session: the one asked for, at most `MAX_SESSION_MTU`.
pub open spec fn session_mtu(asked: Option<u16>) -> usize {
    match asked {
        Some(m) => if (m as usize) < MAX_SESSION_MTU {
            m as usize
        } else {
            MAX_SESSION_MTU
        },
        None => MAX_SESSION_MTU,
    }
}

/// `r` is the error named `n`.
pub open spec fn err_named<T>(r: Result<T, &'static str>, n: Seq<char>) -> bool {
    r matches Err(e) && e@ == n
}

/// A characteristic can be read when any one of its four read flags is set (plain,
/// secure, encrypted or encrypted and authenticated), and only then.
pub proof fn lemma_chrc_read_flags(f: CharFlags)
    ensures
        f.read ==> chrc_readable(f),
        f.secure_read ==> chrc_readable(f),
        f.encrypt_read ==> chrc_readable(f),
        f.encrypt_auth_read ==> chrc_readable(f),
        !f.read && !f.secure_read && !f.encrypt_read && !f.encrypt_auth_read ==> !chrc_readable(f),
{
}

/// A characteristic can be written when any one of its four write flags is set (with or
/// without a response, encrypted, or encrypted and authenticated), and only then.
pub proof fn lemma_chrc_write_flags(f: CharFlags)
    ensures
        f.write ==> chrc_writable(f),
        f.write_wo_response ==> chrc_writable(f),
        f.encrypt_write ==> chrc_writable(f),
        f.encrypt_auth_write ==> chrc_writable(f),
        !f.write && !f.write_wo_response && !f.encrypt_write && !f.encrypt_auth_write
            ==> !chrc_writable(f),
{
}

/// The member name by which Bluez calls the method `m` of the characteristic interface.
pub open spec fn chrc_member_name(m: ChrcMethod) -> Option<Seq<char>> {
    match m {
        ChrcMethod::ReadValue => Some("ReadValue"@),
        ChrcMethod::WriteValue => Some("WriteValue"@),
        ChrcMethod::AcquireNotify => Some("AcquireNotify"@),
        ChrcMethod::AcquireWrite => Some("AcquireWrite"@),
        ChrcMethod::StartNotify => Some("StartNotify"@),
        ChrcMethod::StopNotify => Some("StopNotify"@),
        _ => None,
    }
}

/// A call on the characteristic interface is routed to the method that its member names,
/// and a member that names no method is an unknown method.
pub proof fn lemma_chrc_member_routes(m: ChrcMethod, member: Seq<char>)
    ensures
        chrc_member_name(m) == Some(member) ==> chrc_method_of(BLUEZ_CHR_IF@, member) == m,
        chrc_method_of(BLUEZ_CHR_IF@, member) != ChrcMethod::UnknownMethod ==> chrc_member_name(
            chrc_method_of(BLUEZ_CHR_IF@, member),
        ) == Some(member),
{
    reveal_strlit("org.bluez.GattCharacteristic1");
    reveal_strlit("org.freedesktop.DBus.Properties");
    reveal_strlit("org.freedesktop.DBus.Introspectable");
    reveal_strlit("ReadValue");
    reveal_strlit("WriteValue");
    reveal_strlit("AcquireNotify");
    reveal_strlit("AcquireWrite");
    reveal_strlit("StartNotify");
    reveal_strlit("StopNotify");
    assert(BLUEZ_CHR_IF@.len() != crate::properties::PROPS_IF@.len());
    assert(BLUEZ_CHR_IF@.len() != crate::properties::INTRO_IF@.len());
    assert("ReadValue"@[0] != "WriteValue"@[0]);
    assert("AcquireNotify"@.len() != "AcquireWrite"@.len());
    assert("StartNotify"@[2] != "StopNotify"@[2]);
}

/// Finds the method that a call is for.
pub fn chrc_method(interface: &str, member: &str) -> (r: ChrcMethod)
    ensures
        r == chrc_method_of(interface@, member@),
{
    if str_eq(interface, crate::properties::PROPS_IF) {
        ChrcMethod::Properties
    } else if str_eq(interface, crate::properties::INTRO_IF) {
        ChrcMethod::Introspect
    } else if str_eq(interface, BLUEZ_CHR_IF) {
        if str_eq(member, "ReadValue") {
            ChrcMethod::ReadValue
        } else if str_eq(member, "WriteValue") {
            ChrcMethod::WriteValue
        } else if str_eq(member, "AcquireNotify") {
            ChrcMethod::AcquireNotify
        } else if str_eq(member, "AcquireWrite") {
            ChrcMethod::AcquireWrite
        } else if str_eq(member, "StartNotify") {
            ChrcMethod::StartNotify
        } else if str_eq(member, "StopNotify") {
            ChrcMethod::StopNotify
        } else {
            ChrcMethod::UnknownMethod
        }
    } else {
        ChrcMethod::UnknownInterface
    }
}

/// The name of the property `p`, as characteristics are asked for it.
pub fn chrc_prop_name(p: ChrcProp) -> (r: &'static str)
    ensures
        chrc_prop_of(r@) == Some(p),
{
    proof {
        reveal_strlit("UUID");
        reveal_strlit("Handle");
        reveal_strlit("Service");
        reveal_strlit("Value");
        reveal_strlit("NotifyAcquired");
        reveal_strlit("Notifying");
        reveal_strlit("Flags");
        reveal_strlit("WriteAcquired");
        assert("UUID"@.len() == 4 && "UUID"@[0] == 'U' && "UUID"@[1] == 'U');
        assert("Handle"@.len() == 6 && "Handle"@[0] == 'H' && "Handle"@[1] == 'a');
        assert("Service"@.len() == 7 && "Service"@[0] == 'S' && "Service"@[1] == 'e');
        assert("Value"@.len() == 5 && "Value"@[0] == 'V' && "Value"@[1] == 'a');
        assert("NotifyAcquired"@.len() == 14 && "NotifyAcquired"@[0] == 'N' && "NotifyAcquired"@[1] == 'o');
        assert("Notifying"@.len() == 9 && "Notifying"@[0] == 'N' && "Notifying"@[1] == 'o');
        assert("Flags"@.len() == 5 && "Flags"@[0] == 'F' && "Flags"@[1] == 'l');
        assert("WriteAcquired"@.len() == 13 && "WriteAcquired"@[0] == 'W' && "WriteAcquired"@[1] == 'r');
    }
    match p {
        ChrcProp::Uuid => UUID_STR,
        ChrcProp::Handle => HANDLE_STR,
        ChrcProp::Service => SERV_STR,
        ChrcProp::Value => VAL_STR,
        ChrcProp::NotifyAcquired => NA_STR,
        ChrcProp::Notifying => NO_STR,
        ChrcProp::Flags => FLAG_STR,
        ChrcProp::WriteAcquired => WA_STR,
    }
}

/// Finds the property named `prop`.
pub fn chrc_prop(prop: &str) -> (r: Option<ChrcProp>)
    ensures
        r == chrc_prop_of(prop@),
{
    if str_eq(prop, UUID_STR) {
        Some(ChrcProp::Uuid)
    } else if str_eq(prop, HANDLE_STR) {
        Some(ChrcProp::Handle)
    } else if str_eq(prop, SERV_STR) {
        Some(ChrcProp::Service)
    } else if str_eq(prop, VAL_STR) {
        Some(ChrcProp::Value)
    } else if str_eq(prop, NA_STR) {
        Some(ChrcProp::NotifyAcquired)
    } else if str_eq(prop, NO_STR) {
        Some(ChrcProp::Notifying)
    } else if str_eq(prop, FLAG_STR) {
        Some(ChrcProp::Flags)
    } else if str_eq(prop, WA_STR) {
        Some(ChrcProp::WriteAcquired)
    } else {
        None
    }
}

/// The MTU of a session for which `asked` was asked.
pub fn session_mtu_exec(asked: Option<u16>) -> (r: usize)
    ensures
        r == session_mtu(asked),
{
    match asked {
        Some(m) => if (m as usize) < MAX_SESSION_MTU {
            m as usize
        } else {
            MAX_SESSION_MTU
        },
        None => MAX_SESSION_MTU,
    }
}

/// The bytes of `v` from `offset` on.
pub fn tail_of(v: &AttValue, offset: u16) -> (r: Vec<u8>)
    ensures
        r@ == tail_from(v@, offset as int),
{
    let n = v.len();
    let s = v.as_slice();
    let mut out: Vec<u8> = Vec::new();
    let mut i: usize = offset as usize;
    if i > n {
        return out;
    }
    while i < n
        invariant
            n == v@.len(),
            s@ == v@,
            offset <= i <= n,
            out@ == v@.subrange(offset as int, i as int),
        decreases n - i,
    {
        out.push(s[i]);
        i = i + 1;
        assert(out@ =~= v@.subrange(offset as int, i as int));
    }
    assert(v@.subrange(offset as int, n as int) =~= v@.skip(offset as int));
    out
}

/// What the property `p` of the characteristic `c`, at the path `path`, holds.
/// What reading the property `p` of `c` at `path` needs: a value function that may be
/// called (for `Value`), a parent path (for `Service`), and flags that have names (for
/// `Flags`).
pub open spec fn chrc_prop_ready<F: FnMut() -> AttValue>(
    c: ChrcData<F>,
    path: Seq<char>,
    p: ChrcProp,
) -> bool {
    &&& p == ChrcProp::Value ==> value_ready(c.value)
    &&& p == ChrcProp::Service ==> parent_spec(path) is Some
    &&& p == ChrcProp::Flags ==> flags_supported(c.flags)
}

pub open spec fn chrc_prop_is<F: FnMut() -> AttValue>(
    c: ChrcData<F>,
    path: Seq<char>,
    p: ChrcProp,
    v: PropValue,
) -> bool {
    match p {
        ChrcProp::Uuid => v == PropValue::Str(uuid_text(c.uuid.0)),
        ChrcProp::Handle => v == PropValue::U16(c.handle),
        ChrcProp::Service => v == PropValue::Path(parent_spec(path).unwrap()),
        ChrcProp::Value => exists|a: AttValue| value_gives(c.value, a) && v == PropValue::Buf(a@),
        ChrcProp::NotifyAcquired => v == PropValue::Bool(c.notify != NotifyState::Off),
        ChrcProp::Notifying => v == PropValue::Bool(c.notify == NotifyState::Signal),
        ChrcProp::Flags => v == PropValue::Flags(char_flag_names(c.flags)),
        ChrcProp::WriteAcquired => v == PropValue::Bool(c.write_fd is Some),
    }
}

/// The flags of the characteristic can be named (signed writes, writable auxiliaries and
/// authorization are not supported).
pub open spec fn flags_supported(f: CharFlags) -> bool {
    !f.auth_signed_writes && !f.writable_auxiliaries && !f.authorize
}

/// The properties of the characteristic interface, in the order `GetAll` gives them.
pub open spec fn chrc_props() -> Seq<ChrcProp> {
    seq![
        ChrcProp::Uuid,
        ChrcProp::Handle,
        ChrcProp::Service,
        ChrcProp::Value,
        ChrcProp::NotifyAcquired,
        ChrcProp::Notifying,
        ChrcProp::Flags,
        ChrcProp::WriteAcquired,
    ]
}

impl<F: FnMut() -> AttValue> ChrcData<F> {
    /// The state of a freshly registered characteristic with `children` descriptors.
    pub fn new(chrc: Characteristic<F>, children: usize) -> (r: ChrcData<F>)
        ensures
            r.children == children,
            r.value == chrc.value(),
            r.uuid == chrc.key(),
            r.flags == chrc.flags(),
            r.handle == chrc.handle(),
            r.notify == NotifyState::Off,
            r.write_fd is None,
    {
        let (value, uuid, flags, handle) = chrc.into_parts();
        ChrcData { children, handle, value, uuid, flags, notify: NotifyState::Off, write_fd: None }
    }

    /// The characteristic again, without descriptors, once its application is unregistered.
    pub fn into_chrc(self) -> (r: Characteristic<F>)
        ensures
            r.value() == self.value,
            r.key() == self.uuid,
            r.flags() == self.flags,
            r.handle() == self.handle,
            r.descs() == Seq::<crate::gatt::Descriptor<F>>::empty(),
    {
        Characteristic::from_parts(self.value, self.uuid, self.flags, self.handle)
    }

    /// Answers `ReadValue`: `options` is `None` when the options could not be read, else the
    /// offset given with them. The answer is the bytes of the value from the offset on.
    pub fn read_value(&mut self, options: Option<Option<u16>>) -> (r: Result<Vec<u8>, &'static str>)
        requires
            value_ready(old(self).value),
        ensures
            *final(self) == *old(self),
            !chrc_readable(old(self).flags) ==> err_named(r, "PermissionDenied"@),
            chrc_readable(old(self).flags) && options is None ==> err_named(r, "UnknownType"@),
            chrc_readable(old(self).flags) && options is Some ==> (r matches Ok(b) && exists|
                a: AttValue,
            |
                value_gives(old(self).value, a) && b@ == tail_from(
                    a@,
                    offset_of(options->Some_0),
                )),
            (old(self).flags.read || old(self).flags.secure_read || old(self).flags.encrypt_read
                || old(self).flags.encrypt_auth_read) ==> !err_named(r, "PermissionDenied"@) && (
            options is Some ==> r is Ok),
            !(old(self).flags.read || old(self).flags.secure_read || old(self).flags.encrypt_read
                || old(self).flags.encrypt_auth_read) ==> err_named(r, "PermissionDenied"@),
    {
        proof {
            reveal_strlit("PermissionDenied");
            reveal_strlit("UnknownType");
            assert("UnknownType"@.len() != "PermissionDenied"@.len());
        }
        if !(self.flags.read || self.flags.secure_read || self.flags.encrypt_read
            || self.flags.encrypt_auth_read) {
            return Err("PermissionDenied");
        }
        let offset = match options {
            Some(o) => match o {
                Some(v) => v,
                None => 0,
            },
            None => return Err("UnknownType"),
        };
        let att_val = self.value.to_value();
        let b = tail_of(&att_val, offset);
        Ok(b)
    }

    /// Answers `WriteValue`: `args` is `None` when the value and options could not be read,
    /// else the value and the offset given. The answer is the value to hand to the write
    /// callback: the one given, or, at a non-zero offset, the current value (read once) with
    /// the given bytes written at the offset. It is `None` when those bytes would not fit in
    /// the value read (see `write_fits`), where the write cannot be made.
    pub fn write_value(&mut self, args: Option<(AttValue, Option<u16>)>) -> (r: Option<
        Result<AttValue, &'static str>,
    >)
        requires
            value_ready(old(self).value),
        ensures
            *final(self) == *old(self),
            !chrc_writable(old(self).flags) ==> (r matches Some(e) && err_named(
                e,
                "PermissionDenied"@,
            )),
            chrc_writable(old(self).flags) && args is None ==> (r matches Some(e) && err_named(
                e,
                "UnknownType"@,
            )),
            chrc_writable(old(self).flags) ==> (args matches Some((a, off)) ==> if offset_of(off)
                == 0 {
                r matches Some(Ok(w)) && w@ == a@
            } else {
                match r {
                    None => exists|v: AttValue|
                        value_gives(old(self).value, v) && !write_fits(v, a, offset_of(off)),
                    Some(e) => e matches Ok(w) && exists|v: AttValue|
                        value_gives(old(self).value, v) && write_fits(v, a, offset_of(off)) && w@
                            == v@.take(offset_of(off)) + a@,
                }
            }),
            (old(self).flags.write || old(self).flags.write_wo_response
                || old(self).flags.encrypt_write || old(self).flags.encrypt_auth_write) ==> (
            args matches Some((a, off)) ==> (offset_of(off) == 0 ==> (r matches Some(Ok(w)) && w@
                == a@)) && !(r matches Some(e) && err_named(e, "PermissionDenied"@))),
            !(old(self).flags.write || old(self).flags.write_wo_response
                || old(self).flags.encrypt_write || old(self).flags.encrypt_auth_write) ==> (
            r matches Some(e) && err_named(e, "PermissionDenied"@)),
    {
        if !(self.flags.write || self.flags.write_wo_response || self.flags.encrypt_write
            || self.flags.encrypt_auth_write) {
            return Some(Err("PermissionDenied"));
        }
        let (att_val, off) = match args {
            Some(a) => a,
            None => return Some(Err("UnknownType")),
        };
        let offset = match off {
            Some(o) => o,
            None => 0,
        };
        if offset != 0 {
            let mut old_val = self.value.to_value();
            let ghost v0 = old_val;
            let offset = offset as usize;
            if offset > old_val.len() || offset + att_val.len() > MAX_CHAR_LEN {
                assert(!write_fits(v0, att_val, offset as int));
                return None;
            }
            old_val.update(att_val.as_slice(), offset);
            assert(write_fits(v0, att_val, offset as int) && old_val@ == v0@.take(offset as int)
                + att_val@);
            return Some(Ok(old_val));
        }
        Some(Ok(att_val))
    }

    /// Takes the outcome of the write callback: the new value, if it gave one.
    pub fn apply_write(&mut self, new_val: Option<ValOrFn<F>>)
        ensures
            final(self).value == match new_val {
                Some(v) => v,
                None => old(self).value,
            },
            final(self).children == old(self).children,
            final(self).uuid == old(self).uuid,
            final(self).notify == old(self).notify,
            final(self).flags == old(self).flags,
            final(self).write_fd == old(self).write_fd,
            final(self).handle == old(self).handle,
    {
        if let Some(v) = new_val {
            self.value = v;
        }
    }

    /// Answers `StartNotify`: from then on changes go out as signals.
    pub fn start_notify(&mut self) -> (r: Result<(), &'static str>)
        ensures
            !(old(self).flags.notify || old(self).flags.indicate) ==> err_named(
                r,
                "PermissionDenied"@,
            ) && final(self).notify == old(self).notify,
            (old(self).flags.notify || old(self).flags.indicate) ==> match old(self).notify {
                NotifyState::Socket(_) => err_named(r, "FdAcquired"@) && final(self).notify == old(self).notify,
                NotifyState::Signal => err_named(r, "org.Bluez.Error.InProgress"@)
                    && final(self).notify == old(self).notify,
                NotifyState::Off => r is Ok && final(self).notify == NotifyState::Signal,
            },
            final(self).value == old(self).value,
            final(self).write_fd == old(self).write_fd,
            final(self).flags == old(self).flags,
            final(self).handle == old(self).handle,
            final(self).uuid == old(self).uuid,
            final(self).children == old(self).children,
    {
        if !(self.flags.notify || self.flags.indicate) {
            return Err("PermissionDenied");
        }
        match self.notify {
            NotifyState::Socket(_) => {
                return Err("FdAcquired");
            },
            NotifyState::Signal => {
                return Err("org.Bluez.Error.InProgress");
            },
            NotifyState::Off => {},
        }
        self.notify = NotifyState::Signal;
        Ok(())
    }

    /// Answers `StopNotify`: only signals can be stopped this way.
    pub fn stop_notify(&mut self) -> (r: Result<(), &'static str>)
        ensures
            old(self).notify != NotifyState::Signal ==> err_named(r, "NotNotifying"@) && final(self).notify == old(self).notify,
            old(self).notify == NotifyState::Signal ==> r is Ok && final(self).notify
                == NotifyState::Off,
            final(self).value == old(self).value,
            final(self).write_fd == old(self).write_fd,
            final(self).flags == old(self).flags,
            final(self).handle == old(self).handle,
            final(self).uuid == old(self).uuid,
            final(self).children == old(self).children,
    {
        if self.notify != NotifyState::Signal {
            Err("NotNotifying")
        } else {
            self.notify = NotifyState::Off;
            Ok(())
        }
    }

    /// Answers `AcquireNotify` up to the making of the socket pair: `hung_up` tells whether
    /// the socket of a session in progress has hung up, `options` is `None` when the options
    /// could not be read, else the MTU asked for. The answer is the MTU of the new session;
    /// `notify_acquired` records it once the sockets are made.
    pub fn acquire_notify(&mut self, hung_up: bool, options: Option<Option<u16>>) -> (r: Result<
        usize,
        &'static str,
    >)
        ensures
            !old(self).flags.notify ==> err_named(r, "PermissionDenied"@) && final(self).notify
                == old(self).notify,
            old(self).flags.notify && (old(self).notify == NotifyState::Signal || (old(self).notify is Socket && !hung_up)) ==> err_named(r, "AlreadyAcquired"@) && final(self).notify == old(self).notify,
            old(self).flags.notify && (old(self).notify == NotifyState::Off || (old(self).notify is Socket && hung_up)) ==> final(self).notify == NotifyState::Off && (match options {
                None => err_named(r, "UnknownType"@),
                Some(m) => r == Ok::<usize, &'static str>(session_mtu(m)),
            }),
            final(self).value == old(self).value,
            final(self).write_fd == old(self).write_fd,
            final(self).flags == old(self).flags,
            final(self).handle == old(self).handle,
            final(self).uuid == old(self).uuid,
            final(self).children == old(self).children,
    {
        if !self.flags.notify {
            return Err("PermissionDenied");
        }
        match self.notify {
            NotifyState::Off => {},
            NotifyState::Socket(_) => {
                if hung_up {
                    self.notify = NotifyState::Off;
                } else {
                    return Err("AlreadyAcquired");
                }
            },
            NotifyState::Signal => {
                return Err("AlreadyAcquired");
            },
        }
        match options {
            Some(m) => Ok(session_mtu_exec(m)),
            None => Err("UnknownType"),
        }
    }

    /// The value that a notification carries: the one given, else the current value.
    pub fn notify_value(&mut self, given: Option<AttValue>) -> (r: AttValue)
        requires
            given is None ==> value_ready(old(self).value),
        ensures
            *final(self) == *old(self),
            match given {
                Some(v) => r == v,
                None => value_gives(old(self).value, r),
            },
    {
        match given {
            Some(v) => v,
            None => self.value.to_value(),
        }
    }

    /// Records the notification session of MTU `mtu`, once its sockets are made.
    pub fn notify_acquired(&mut self, mtu: usize)
        ensures
            final(self).notify == NotifyState::Socket(mtu),
            final(self).value == old(self).value,
            final(self).write_fd == old(self).write_fd,
            final(self).flags == old(self).flags,
            final(self).handle == old(self).handle,
            final(self).uuid == old(self).uuid,
            final(self).children == old(self).children,
    {
        self.notify = NotifyState::Socket(mtu);
    }

    /// Ends notification after a failed send on the notification socket.
    pub fn notify_failed(&mut self)
        ensures
            final(self).notify == NotifyState::Off,
            final(self).value == old(self).value,
            final(self).write_fd == old(self).write_fd,
            final(self).flags == old(self).flags,
            final(self).handle == old(self).handle,
            final(self).uuid == old(self).uuid,
            final(self).children == old(self).children,
    {
        self.notify = NotifyState::Off;
    }

    /// Answers `AcquireWrite` up to the making of the socket pair: `options` is `None` when
    /// the options could not be read, else the MTU asked for. The answer is the MTU of the new
    /// session; `write_acquired` records it once the sockets are made.
    pub fn acquire_write(&mut self, options: Option<Option<u16>>) -> (r: Result<usize, &'static str>)
        ensures
            *final(self) == *old(self),
            !old(self).flags.write_wo_response ==> err_named(r, "PermissionDenied"@),
            old(self).flags.write_wo_response && old(self).write_fd is Some ==> err_named(
                r,
                "AlreadyAcquired"@,
            ),
            old(self).flags.write_wo_response && old(self).write_fd is None ==> match options {
                None => err_named(r, "UnknownType"@),
                Some(m) => r == Ok::<usize, &'static str>(session_mtu(m)),
            },
    {
        if !self.flags.write_wo_response {
            return Err("PermissionDenied");
        }
        if self.write_fd.is_some() {
            return Err("AlreadyAcquired");
        }
        match options {
            Some(m) => Ok(session_mtu_exec(m)),
            None => Err("UnknownType"),
        }
    }

    /// Records the write session of MTU `mtu`, once its sockets are made.
    pub fn write_acquired(&mut self, mtu: usize)
        ensures
            final(self).write_fd == Some(mtu),
            final(self).value == old(self).value,
            final(self).notify == old(self).notify,
            final(self).flags == old(self).flags,
            final(self).handle == old(self).handle,
            final(self).uuid == old(self).uuid,
            final(self).children == old(self).children,
    {
        self.write_fd = Some(mtu);
    }

    /// Ends the write session after its socket hung up.
    pub fn write_closed(&mut self)
        ensures
            final(self).write_fd is None,
            final(self).value == old(self).value,
            final(self).notify == old(self).notify,
            final(self).flags == old(self).flags,
            final(self).handle == old(self).handle,
            final(self).uuid == old(self).uuid,
            final(self).children == old(self).children,
    {
        self.write_fd = None;
    }

    /// The size of the buffer into which a write from the write session is read: the MTU of
    /// the session, at most `MAX_CHAR_LEN`.
    pub fn write_buffer_len(&self) -> (r: Option<usize>)
        ensures
            match self.write_fd {
                Some(m) => r == Some(if m < MAX_CHAR_LEN {
                    m
                } else {
                    MAX_CHAR_LEN
                }),
                None => r is None,
            },
    {
        match self.write_fd {
            Some(m) => Some(
                if m < MAX_CHAR_LEN {
                    m
                } else {
                    MAX_CHAR_LEN
                },
            ),
            None => None,
        }
    }

    /// Reads the property `p`; `path` is the path of the characteristic.
    pub fn prop_value(&mut self, path: &ObjectPath, p: ChrcProp) -> (r: BluezOptions)
        requires
            chrc_prop_ready(*old(self), path@, p),
        ensures
            *final(self) == *old(self),
            chrc_prop_is(*old(self), path@, p, r@),
    {
        match p {
            ChrcProp::Uuid => BluezOptions::Str(self.uuid.to_string()),
            ChrcProp::Handle => BluezOptions::U16(self.handle),
            ChrcProp::Service => {
                let parent = path.parent().unwrap();
                BluezOptions::Path(parent.to_owned())
            },
            ChrcProp::Value => {
                let a = self.value.to_value();
                let b = tail_of(&a, 0);
                assert(a@.skip(0) =~= a@);
                BluezOptions::Buf(b)
            },
            ChrcProp::NotifyAcquired => BluezOptions::Bool(self.notify != NotifyState::Off),
            ChrcProp::Notifying => BluezOptions::Bool(self.notify == NotifyState::Signal),
            ChrcProp::Flags => BluezOptions::Flags(self.flags.to_strings()),
            ChrcProp::WriteAcquired => BluezOptions::Bool(self.write_fd.is_some()),
        }
    }

    /// Reads the property `prop` of `interface`; `path` is the path of the characteristic.
    pub fn get_inner(&mut self, path: &ObjectPath, interface: &str, prop: &str) -> (r: Result<
        BluezOptions,
        PropError,
    >)
        requires
            interface@ == BLUEZ_CHR_IF@ && chrc_prop_of(prop@) is Some ==> chrc_prop_ready(
                *old(self),
                path@,
                chrc_prop_of(prop@)->0,
            ),
        ensures
            *final(self) == *old(self),
            interface@ != BLUEZ_CHR_IF@ ==> r == Err::<BluezOptions, PropError>(
                PropError::InterfaceNotFound,
            ),
            interface@ == BLUEZ_CHR_IF@ ==> match chrc_prop_of(prop@) {
                None => r == Err::<BluezOptions, PropError>(PropError::PropertyNotFound),
                Some(p) => (r matches Ok(v) && chrc_prop_is(*old(self), path@, p, v@)),
            },
    {
        if !str_eq(interface, BLUEZ_CHR_IF) {
            return Err(PropError::InterfaceNotFound);
        }
        match chrc_prop(prop) {
            None => Err(PropError::PropertyNotFound),
            Some(p) => Ok(self.prop_value(path, p)),
        }
    }

    /// Writes the property `prop` of `interface`: only the handle can be written.
    pub fn set_inner(&mut self, interface: &str, prop: &str, val: BluezOptions) -> (r: Result<
        (),
        PropError,
    >)
        ensures
            interface@ != BLUEZ_CHR_IF@ ==> r == Err::<(), PropError>(PropError::InterfaceNotFound)
                && final(self).handle == old(self).handle,
            interface@ == BLUEZ_CHR_IF@ ==> match chrc_prop_of(prop@) {
                Some(ChrcProp::Handle) => match val {
                    BluezOptions::U16(h) => r is Ok && final(self).handle == h,
                    _ => r == Err::<(), PropError>(PropError::InvalidValue) && final(self).handle
                        == old(self).handle,
                },
                Some(ChrcProp::WriteAcquired) | None => r == Err::<(), PropError>(
                    PropError::PropertyNotFound,
                ) && final(self).handle == old(self).handle,
                _ => r == Err::<(), PropError>(PropError::PermissionDenied) && final(self).handle
                    == old(self).handle,
            },
            final(self).value == old(self).value,
            final(self).notify == old(self).notify,
            final(self).write_fd == old(self).write_fd,
            final(self).flags == old(self).flags,
            final(self).uuid == old(self).uuid,
            final(self).children == old(self).children,
    {
        if !str_eq(interface, BLUEZ_CHR_IF) {
            return Err(PropError::InterfaceNotFound);
        }
        match chrc_prop(prop) {
            Some(ChrcProp::Handle) => match val {
                BluezOptions::U16(h) => {
                    self.handle = h;
                    Ok(())
                },
                _ => Err(PropError::InvalidValue),
            },
            Some(ChrcProp::WriteAcquired) | None => Err(PropError::PropertyNotFound),
            _ => Err(PropError::PermissionDenied),
        }
    }

    /// Reads all of the properties of `interface`, in the order of `chrc_props`.
    pub fn get_all_inner(&mut self, path: &ObjectPath, interface: &str) -> (r: Result<
        Vec<(ChrcProp, BluezOptions)>,
        PropError,
    >)
        requires
            value_ready(old(self).value),
            parent_spec(path@) is Some,
            flags_supported(old(self).flags),
        ensures
            *final(self) == *old(self),
            interface@ != BLUEZ_CHR_IF@ ==> r == Err::<Vec<(ChrcProp, BluezOptions)>, PropError>(
                PropError::InterfaceNotFound,
            ),
            interface@ == BLUEZ_CHR_IF@ ==> (r matches Ok(l) && l@.len() == chrc_props().len()
                && forall|i: int|
                0 <= i < l@.len() ==> #[trigger] l@[i].0 == chrc_props()[i] && chrc_prop_is(
                    *old(self),
                    path@,
                    l@[i].0,
                    l@[i].1@,
                )),
    {
        if !str_eq(interface, BLUEZ_CHR_IF) {
            return Err(PropError::InterfaceNotFound);
        }
        let props: [ChrcProp; 8] = [
            ChrcProp::Uuid,
            ChrcProp::Handle,
            ChrcProp::Service,
            ChrcProp::Value,
            ChrcProp::NotifyAcquired,
            ChrcProp::Notifying,
            ChrcProp::Flags,
            ChrcProp::WriteAcquired,
        ];
        assert(props@ =~= chrc_props());
        let ghost s0 = *self;
        let mut out: Vec<(ChrcProp, BluezOptions)> = Vec::new();
        let mut i: usize = 0;
        while i < 8
            invariant
                *self == s0,
                value_ready(s0.value),
                parent_spec(path@) is Some,
                flags_supported(s0.flags),
                props@ == chrc_props(),
                i <= 8,
                out@.len() == i,
                forall|j: int|
                    0 <= j < i ==> #[trigger] out@[j].0 == chrc_props()[j] && chrc_prop_is(
                        s0,
                        path@,
                        out@[j].0,
                        out@[j].1@,
                    ),
            decreases 8 - i,
        {
            let p = props[i];
            let v = self.prop_value(path, p);
            out.push((p, v));
            i = i + 1;
        }
        Ok(out)
    }
}

} // verus!
