//! Local GATT services, characteristics and descriptors, as they are put together before an
//! application is registered. Within a service no two characteristics share a UUID, and
//! within a characteristic no two descriptors do.
use vstd::prelude::*;

use crate::att::{value_gives, value_ready, AttValue, ValOrFn, MAX_CHAR_LEN};
use crate::chrc::{
    chrc_prop_of, err_named, offset_of, tail_from, tail_of, write_fits, ChrcProp,
};
use crate::flags::{desc_flag_names, CharFlags, DescFlags};
use crate::path::{parent_spec, ObjectPath};
use crate::properties::{
    BluezOptions, PropError, PropValue, BLUEZ_CHR_IF, BLUEZ_DES_IF, CHAR_STR, FLAG_STR, HANDLE_STR,
    INTRO_IF, PROPS_IF, UUID_STR, VAL_STR,
};
use crate::strbuf::str_eq;
use crate::uuid::uuid_text;
use crate::keyed::{
    item_with_key, lemma_remove_key, lemma_upsert, position_of, remove_key, remove_key_spec,
    unique_keys, upsert, upsert_spec, UuidKeyed,
};
use crate::uuid::UUID;

verus! {

/// The handle that `set_handle` records: the one given, or 0 to have Bluez pick one.
pub open spec fn handle_of(handle: Option<u16>) -> u16 {
    match handle {
        Some(h) => h,
        None => 0,
    }
}

/// A GATT descriptor that is to be added to a `Characteristic`.
pub struct Descriptor<F> {
    value: ValOrFn<F>,
    uuid: UUID,
    flags: DescFlags,
    handle: u16,
}

impl<F> UuidKeyed for Descriptor<F> {
    closed spec fn key(&self) -> UUID {
        self.uuid
    }

    fn key_of(&self) -> (r: UUID) {
        self.uuid
    }
}

impl<F> Descriptor<F> {
    pub closed spec fn value(&self) -> ValOrFn<F> {
        self.value
    }

    pub closed spec fn flags(&self) -> DescFlags {
        self.flags
    }

    pub closed spec fn handle(&self) -> u16 {
        self.handle
    }

    /// A descriptor with an empty value and no requested handle.
    pub fn new(uuid: UUID, flags: DescFlags) -> (r: Descriptor<F>)
        ensures
            r.key() == uuid,
            r.flags() == flags,
            r.handle() == 0,
            r.value() matches ValOrFn::Value(v) && v@ == Seq::<u8>::empty(),
    {
        Descriptor { uuid, flags, handle: 0, value: ValOrFn::default() }
    }

    /// Sets the value, or the function that gives it.
    pub fn set_value(&mut self, vf: ValOrFn<F>)
        ensures
            final(self).value() == vf,
            final(self).key() == old(self).key(),
            final(self).flags() == old(self).flags(),
            final(self).handle() == old(self).handle(),
    {
        self.value = vf;
    }

    /// Sets the handle to request from Bluez (`None` lets Bluez pick one).
    pub fn set_handle(&mut self, handle: Option<u16>)
        ensures
            final(self).handle() == handle_of(handle),
            final(self).key() == old(self).key(),
            final(self).flags() == old(self).flags(),
            final(self).value() == old(self).value(),
    {
        self.handle = match handle {
            Some(h) => h,
            None => 0,
        };
    }

    /// The UUID of the descriptor.
    pub fn uuid(&self) -> (r: UUID)
        ensures
            r == self.key(),
    {
        self.uuid
    }
}

/// The methods of a descriptor, by interface and member name.
#[derive(Clone, Copy, Debug, PartialEq, Eq, Structural)]
pub enum DescMethod {
    Properties,
    Introspect,
    ReadValue,
    WriteValue,
    /// A member of the descriptor interface that the descriptor does not have.
    UnknownMethod,
    /// An interface that the descriptor does not have.
    UnknownInterface,
}

/// The properties of a descriptor.
#[derive(Clone, Copy, Debug, PartialEq, Eq, Structural)]
pub enum DescProp {
    Uuid,
    Handle,
    Characteristic,
    Value,
    Flags,
}

/// The method that a call on `interface` with `member` is for.
pub open spec fn desc_method_of(interface: Seq<char>, member: Seq<char>) -> DescMethod {
    if interface == PROPS_IF@ {
        DescMethod::Properties
    } else if interface == INTRO_IF@ {
        DescMethod::Introspect
    } else if interface == BLUEZ_DES_IF@ {
        if member == "ReadValue"@ {
            DescMethod::ReadValue
        } else if member == "WriteValue"@ {
            DescMethod::WriteValue
        } else {
            DescMethod::UnknownMethod
        }
    } else {
        DescMethod::UnknownInterface
    }
}

/// The property named `prop`, if the descriptor has one by that name.
pub open spec fn desc_prop_of(prop: Seq<char>) -> Option<DescProp> {
    if prop == UUID_STR@ {
        Some(DescProp::Uuid)
    } else if prop == HANDLE_STR@ {
        Some(DescProp::Handle)
    } else if prop == CHAR_STR@ {
        Some(DescProp::Characteristic)
    } else if prop == VAL_STR@ {
        Some(DescProp::Value)
    } else if prop == FLAG_STR@ {
        Some(DescProp::Flags)
    } else {
        None
    }
}

/// The name by which Bluez asks for the property `p`.
pub open spec fn desc_prop_text(p: DescProp) -> Seq<char> {
    match p {
        DescProp::Uuid => "UUID"@,
        DescProp::Handle => "Handle"@,
        DescProp::Characteristic => "Characteristic"@,
        DescProp::Value => "Value"@,
        DescProp::Flags => "Flags"@,
    }
}

/// A property is found by its name, and a name that finds a property is that property's
/// name.
pub proof fn lemma_desc_prop_text(p: DescProp, prop: Seq<char>)
    ensures
        desc_prop_of(desc_prop_text(p)) == Some(p),
        desc_prop_of(prop) == Some(p) ==> prop == desc_prop_text(p),
{
    reveal_strlit("UUID");
    reveal_strlit("Handle");
    reveal_strlit("Characteristic");
    reveal_strlit("Value");
    reveal_strlit("Flags");
    assert("UUID"@.len() == 4 && "UUID"@[0] == 'U' && "UUID"@[1] == 'U');
    assert("Handle"@.len() == 6 && "Handle"@[0] == 'H' && "Handle"@[1] == 'a');
    assert("Characteristic"@.len() == 14 && "Characteristic"@[0] == 'C' && "Characteristic"@[1] == 'h');
    assert("Value"@.len() == 5 && "Value"@[0] == 'V' && "Value"@[1] == 'a');
    assert("Flags"@.len() == 5 && "Flags"@[0] == 'F' && "Flags"@[1] == 'l');
}

/// The properties of the descriptor interface, in the order `GetAll` gives them.
pub open spec fn desc_props() -> Seq<DescProp> {
    seq![DescProp::Uuid, DescProp::Handle, DescProp::Characteristic, DescProp::Value, DescProp::Flags]
}

/// The descriptor may be read.
pub open spec fn desc_readable(f: DescFlags) -> bool {
    f.read || f.secure_read || f.encrypt_read || f.encrypt_auth_read
}

/// The descriptor may be written.
pub open spec fn desc_writable(f: DescFlags) -> bool {
    f.write || f.encrypt_write || f.encrypt_auth_write
}

/// A descriptor can be read when any one of its four read flags is set (plain, secure,
/// encrypted or encrypted and authenticated), and only then.
pub proof fn lemma_desc_read_flags(f: DescFlags)
    ensures
        f.read ==> desc_readable(f),
        f.secure_read ==> desc_readable(f),
        f.encrypt_read ==> desc_readable(f),
        f.encrypt_auth_read ==> desc_readable(f),
        !f.read && !f.secure_read && !f.encrypt_read && !f.encrypt_auth_read ==> !desc_readable(f),
{
}

/// A descriptor can be written when any one of its write flags is set (plain, encrypted,
/// or encrypted and authenticated), and only then.
pub proof fn lemma_desc_write_flags(f: DescFlags)
    ensures
        f.write ==> desc_writable(f),
        f.encrypt_write ==> desc_writable(f),
        f.encrypt_auth_write ==> desc_writable(f),
        !f.write && !f.encrypt_write && !f.encrypt_auth_write ==> !desc_writable(f),
{
}


/// A call on the descriptor interface is routed to the method that its member names:
/// `ReadValue` to reading, `WriteValue` to writing, and any other member is unknown.
pub proof fn lemma_desc_member_routes(member: Seq<char>)
    ensures
        desc_method_of(BLUEZ_DES_IF@, "ReadValue"@) == DescMethod::ReadValue,
        desc_method_of(BLUEZ_DES_IF@, "WriteValue"@) == DescMethod::WriteValue,
        member != "ReadValue"@ && member != "WriteValue"@ ==> desc_method_of(BLUEZ_DES_IF@, member)
            == DescMethod::UnknownMethod,
{
    reveal_strlit("org.bluez.GattDescriptor1");
    reveal_strlit("org.freedesktop.DBus.Properties");
    reveal_strlit("org.freedesktop.DBus.Introspectable");
    reveal_strlit("ReadValue");
    reveal_strlit("WriteValue");
    assert(BLUEZ_DES_IF@.len() != PROPS_IF@.len());
    assert(BLUEZ_DES_IF@.len() != INTRO_IF@.len());
    assert("ReadValue"@[0] != "WriteValue"@[0]);
}

/// Finds the method that a call is for.
pub fn desc_method(interface: &str, member: &str) -> (r: DescMethod)
    ensures
        r == desc_method_of(interface@, member@),
{
    if str_eq(interface, PROPS_IF) {
        DescMethod::Properties
    } else if str_eq(interface, INTRO_IF) {
        DescMethod::Introspect
    } else if str_eq(interface, BLUEZ_DES_IF) {
        if str_eq(member, "ReadValue") {
            DescMethod::ReadValue
        } else if str_eq(member, "WriteValue") {
            DescMethod::WriteValue
        } else {
            DescMethod::UnknownMethod
        }
    } else {
        DescMethod::UnknownInterface
    }
}

/// The name of the property `p`, as descriptors are asked for it.
pub fn desc_prop_name(p: DescProp) -> (r: &'static str)
    ensures
        desc_prop_of(r@) == Some(p),
{
    proof {
        reveal_strlit("UUID");
        reveal_strlit("Handle");
        reveal_strlit("Characteristic");
        reveal_strlit("Value");
        reveal_strlit("Flags");
        assert("UUID"@.len() == 4 && "UUID"@[0] == 'U' && "UUID"@[1] == 'U');
        assert("Handle"@.len() == 6 && "Handle"@[0] == 'H' && "Handle"@[1] == 'a');
        assert("Characteristic"@.len() == 14 && "Characteristic"@[0] == 'C' && "Characteristic"@[1] == 'h');
        assert("Value"@.len() == 5 && "Value"@[0] == 'V' && "Value"@[1] == 'a');
        assert("Flags"@.len() == 5 && "Flags"@[0] == 'F' && "Flags"@[1] == 'l');
    }
    match p {
        DescProp::Uuid => UUID_STR,
        DescProp::Handle => HANDLE_STR,
        DescProp::Characteristic => CHAR_STR,
        DescProp::Value => VAL_STR,
        DescProp::Flags => FLAG_STR,
    }
}

/// Finds the property named `prop`.
pub fn desc_prop(prop: &str) -> (r: Option<DescProp>)
    ensures
        r == desc_prop_of(prop@),
{
    if str_eq(prop, UUID_STR) {
        Some(DescProp::Uuid)
    } else if str_eq(prop, HANDLE_STR) {
        Some(DescProp::Handle)
    } else if str_eq(prop, CHAR_STR) {
        Some(DescProp::Characteristic)
    } else if str_eq(prop, VAL_STR) {
        Some(DescProp::Value)
    } else if str_eq(prop, FLAG_STR) {
        Some(DescProp::Flags)
    } else {
        None
    }
}

/// What the property `p` of the descriptor `d`, at the path `path`, holds.
/// What reading the property `p` of `d` at `path` needs: a value function that may be
/// called (for `Value`), a parent path (for `Characteristic`), and flags that have names
/// (for `Flags`).
pub open spec fn desc_prop_ready<F: FnMut() -> AttValue>(
    d: Descriptor<F>,
    path: Seq<char>,
    p: DescProp,
) -> bool {
    &&& p == DescProp::Value ==> value_ready(d.value())
    &&& p == DescProp::Characteristic ==> parent_spec(path) is Some
    &&& p == DescProp::Flags ==> !d.flags().authorize
}

pub open spec fn desc_prop_is<F: FnMut() -> AttValue>(
    d: Descriptor<F>,
    path: Seq<char>,
    p: DescProp,
    v: PropValue,
) -> bool {
    match p {
        DescProp::Uuid => v == PropValue::Str(uuid_text(d.key().0)),
        DescProp::Handle => v == PropValue::U16(d.handle()),
        DescProp::Characteristic => v == PropValue::Path(parent_spec(path).unwrap()),
        DescProp::Value => exists|a: AttValue| value_gives(d.value(), a) && v == PropValue::Buf(a@),
        DescProp::Flags => v == PropValue::Flags(desc_flag_names(d.flags())),
    }
}

impl<F: FnMut() -> AttValue> Descriptor<F> {
    /// The handle requested from Bluez (0 when none is).
    pub fn get_handle(&self) -> (r: u16)
        ensures
            r == self.handle(),
    {
        self.handle
    }

    /// The flags of the descriptor.
    pub fn get_flags(&self) -> (r: DescFlags)
        ensures
            r == self.flags(),
    {
        self.flags
    }

    /// The current value: a copy of the value held, or what the function returns.
    pub fn current_value(&mut self) -> (r: AttValue)
        requires
            value_ready(old(self).value()),
        ensures
            value_gives(old(self).value(), r),
            *final(self) == *old(self),
    {
        self.value.to_value()
    }

    /// Answers `ReadValue`: `options` is `None` when the options could not be read, else the
    /// offset given with them. The answer is the bytes of the value from the offset on.
    pub fn read_value(&mut self, options: Option<Option<u16>>) -> (r: Result<Vec<u8>, &'static str>)
        requires
            value_ready(old(self).value()),
        ensures
            *final(self) == *old(self),
            !desc_readable(old(self).flags()) ==> err_named(r, "PermissionDenied"@),
            desc_readable(old(self).flags()) && options is None ==> err_named(r, "UnknownType"@),
            desc_readable(old(self).flags()) && options is Some ==> (r matches Ok(b) && exists|
                a: AttValue,
            |
                value_gives(old(self).value(), a) && b@ == tail_from(
                    a@,
                    offset_of(options->Some_0),
                )),
            (old(self).flags().read || old(self).flags().secure_read
                || old(self).flags().encrypt_read || old(self).flags().encrypt_auth_read) ==> (
            options is Some ==> r is Ok),
            !(old(self).flags().read || old(self).flags().secure_read
                || old(self).flags().encrypt_read || old(self).flags().encrypt_auth_read)
                ==> err_named(r, "PermissionDenied"@),
    {
        if !(self.flags.read || self.flags.secure_read || self.flags.encrypt_read
            || self.flags.encrypt_auth_read) {
            return Err("PermissionDenied");
        }
        let offset = match options {
            Some(o) => match o {
                Some(v) => v,
                None => 0,
            },
            None => return Err("UnknownType"),
        };
        let att_val = self.value.to_value();
        Ok(tail_of(&att_val, offset))
    }

    /// Answers `WriteValue`: `args` is `None` when the value and options could not be read,
    /// else the value and the offset given. The descriptor then holds the value given, or, at
    /// a non-zero offset, its former value (read once) with the given bytes written at the
    /// offset. The answer is `None`, and the value stays, when those bytes would not fit in
    /// the value read (see `write_fits`), where the write cannot be made.
    pub fn write_value(&mut self, args: Option<(AttValue, Option<u16>)>) -> (r: Option<
        Result<(), &'static str>,
    >)
        requires
            value_ready(old(self).value()),
        ensures
            final(self).key() == old(self).key(),
            final(self).flags() == old(self).flags(),
            final(self).handle() == old(self).handle(),
            !desc_writable(old(self).flags()) ==> (r matches Some(e) && err_named(
                e,
                "PermissionDenied"@,
            )) && final(self).value() == old(self).value(),
            desc_writable(old(self).flags()) && args is None ==> (r matches Some(e) && err_named(
                e,
                "UnknownType"@,
            )) && final(self).value() == old(self).value(),
            desc_writable(old(self).flags()) ==> (args matches Some((a, off)) ==> if offset_of(
                off,
            ) == 0 {
                r == Some(Ok::<(), &'static str>(())) && (final(self).value() matches ValOrFn::Value(
                    w,
                ) && w@ == a@)
            } else {
                match r {
                    None => final(self).value() == old(self).value() && exists|v: AttValue|
                        value_gives(old(self).value(), v) && !write_fits(v, a, offset_of(off)),
                    Some(e) => e is Ok && (final(self).value() matches ValOrFn::Value(w)
                        && exists|v: AttValue|
                        value_gives(old(self).value(), v) && write_fits(v, a, offset_of(off))
                            && w@ == v@.take(offset_of(off)) + a@),
                }
            }),
    {
        if !(self.flags.write || self.flags.encrypt_write || self.flags.encrypt_auth_write) {
            return Some(Err("PermissionDenied"));
        }
        let (att_val, off) = match args {
            Some(a) => a,
            None => return Some(Err("UnknownType")),
        };
        let offset = match off {
            Some(o) => o,
            None => 0,
        };
        if offset != 0 {
            let mut old_val = self.value.to_value();
            let ghost v0 = old_val;
            let offset = offset as usize;
            if offset > old_val.len() || offset + att_val.len() > MAX_CHAR_LEN {
                assert(!write_fits(v0, att_val, offset as int));
                return None;
            }
            old_val.update(att_val.as_slice(), offset);
            assert(write_fits(v0, att_val, offset as int) && old_val@ == v0@.take(offset as int)
                + att_val@);
            self.value = ValOrFn::Value(old_val);
        } else {
            self.value = ValOrFn::Value(att_val);
        }
        Some(Ok(()))
    }

    /// Reads the property `p`; `path` is the path of the descriptor.
    pub fn prop_value(&mut self, path: &ObjectPath, p: DescProp) -> (r: BluezOptions)
        requires
            desc_prop_ready(*old(self), path@, p),
        ensures
            *final(self) == *old(self),
            desc_prop_is(*old(self), path@, p, r@),
    {
        match p {
            DescProp::Uuid => BluezOptions::Str(self.uuid.to_string()),
            DescProp::Handle => BluezOptions::U16(self.handle),
            DescProp::Characteristic => {
                let parent = path.parent().unwrap();
                BluezOptions::Path(parent.to_owned())
            },
            DescProp::Value => {
                let a = self.value.to_value();
                let b = tail_of(&a, 0);
                assert(a@.skip(0) =~= a@);
                BluezOptions::Buf(b)
            },
            DescProp::Flags => BluezOptions::Flags(self.flags.to_strings()),
        }
    }

    /// Reads the property `prop` of `interface`; `path` is the path of the descriptor.
    pub fn get_inner(&mut self, path: &ObjectPath, interface: &str, prop: &str) -> (r: Result<
        BluezOptions,
        PropError,
    >)
        requires
            interface@ == BLUEZ_DES_IF@ && desc_prop_of(prop@) is Some ==> desc_prop_ready(
                *old(self),
                path@,
                desc_prop_of(prop@)->0,
            ),
        ensures
            *final(self) == *old(self),
            interface@ != BLUEZ_DES_IF@ ==> r == Err::<BluezOptions, PropError>(
                PropError::InterfaceNotFound,
            ),
            interface@ == BLUEZ_DES_IF@ ==> match desc_prop_of(prop@) {
                None => r == Err::<BluezOptions, PropError>(PropError::PropertyNotFound),
                Some(p) => (r matches Ok(v) && desc_prop_is(*old(self), path@, p, v@)),
            },
    {
        if !str_eq(interface, BLUEZ_DES_IF) {
            return Err(PropError::InterfaceNotFound);
        }
        match desc_prop(prop) {
            None => Err(PropError::PropertyNotFound),
            Some(p) => Ok(self.prop_value(path, p)),
        }
    }

    /// Writes the property `prop` of `interface`: only the handle can be written. The
    /// interface is checked against the characteristic interface.
    pub fn set_inner(&mut self, interface: &str, prop: &str, val: BluezOptions) -> (r: Result<
        (),
        PropError,
    >)
        ensures
            interface@ != BLUEZ_CHR_IF@ ==> r == Err::<(), PropError>(PropError::InterfaceNotFound)
                && final(self).handle() == old(self).handle(),
            interface@ == BLUEZ_CHR_IF@ ==> match desc_prop_of(prop@) {
                Some(DescProp::Handle) => match val {
                    BluezOptions::U16(h) => r is Ok && final(self).handle() == h,
                    _ => r == Err::<(), PropError>(PropError::InvalidValue) && final(self).handle()
                        == old(self).handle(),
                },
                None => r == Err::<(), PropError>(PropError::PropertyNotFound) && final(self).handle() == old(self).handle(),
                _ => r == Err::<(), PropError>(PropError::PermissionDenied) && final(self).handle()
                    == old(self).handle(),
            },
            final(self).value() == old(self).value(),
            final(self).flags() == old(self).flags(),
            final(self).key() == old(self).key(),
    {
        if !str_eq(interface, BLUEZ_CHR_IF) {
            return Err(PropError::InterfaceNotFound);
        }
        match desc_prop(prop) {
            Some(DescProp::Handle) => match val {
                BluezOptions::U16(h) => {
                    self.handle = h;
                    Ok(())
                },
                _ => Err(PropError::InvalidValue),
            },
            None => Err(PropError::PropertyNotFound),
            _ => Err(PropError::PermissionDenied),
        }
    }

    /// Reads all of the properties of `interface`, in the order of `desc_props`.
    pub fn get_all_inner(&mut self, path: &ObjectPath, interface: &str) -> (r: Result<
        Vec<(DescProp, BluezOptions)>,
        PropError,
    >)
        requires
            value_ready(old(self).value()),
            parent_spec(path@) is Some,
            !old(self).flags().authorize,
        ensures
            *final(self) == *old(self),
            interface@ != BLUEZ_DES_IF@ ==> r == Err::<Vec<(DescProp, BluezOptions)>, PropError>(
                PropError::InterfaceNotFound,
            ),
            interface@ == BLUEZ_DES_IF@ ==> (r matches Ok(l) && l@.len() == desc_props().len()
                && forall|i: int|
                0 <= i < l@.len() ==> #[trigger] l@[i].0 == desc_props()[i] && desc_prop_is(
                    *old(self),
                    path@,
                    l@[i].0,
                    l@[i].1@,
                )),
    {
        if !str_eq(interface, BLUEZ_DES_IF) {
            return Err(PropError::InterfaceNotFound);
        }
        let props: [DescProp; 5] = [
            DescProp::Uuid,
            DescProp::Handle,
            DescProp::Characteristic,
            DescProp::Value,
            DescProp::Flags,
        ];
        assert(props@ =~= desc_props());
        let ghost s0 = *self;
        let mut out: Vec<(DescProp, BluezOptions)> = Vec::new();
        let mut i: usize = 0;
        while i < 5
            invariant
                *self == s0,
                value_ready(s0.value()),
                parent_spec(path@) is Some,
                !s0.flags().authorize,
                props@ == desc_props(),
                i <= 5,
                out@.len() == i,
                forall|j: int|
                    0 <= j < i ==> #[trigger] out@[j].0 == desc_props()[j] && desc_prop_is(
                        s0,
                        path@,
                        out@[j].0,
                        out@[j].1@,
                    ),
            decreases 5 - i,
        {
            let p = props[i];
            let v = self.prop_value(path, p);
            out.push((p, v));
            i = i + 1;
        }
        Ok(out)
    }
}

/// A GATT characteristic that is to be added to a `Service`.
pub struct Characteristic<F> {
    descs: Vec<Descriptor<F>>,
    value: ValOrFn<F>,
    uuid: UUID,
    flags: CharFlags,
    handle: u16,
}

impl<F> UuidKeyed for Characteristic<F> {
    closed spec fn key(&self) -> UUID {
        self.uuid
    }

    fn key_of(&self) -> (r: UUID) {
        self.uuid
    }
}

impl<F> Characteristic<F> {
    #[verifier::type_invariant]
    spec fn inv(self) -> bool {
        unique_keys(self.descs@)
    }

    pub closed spec fn descs(&self) -> Seq<Descriptor<F>> {
        self.descs@
    }

    pub closed spec fn value(&self) -> ValOrFn<F> {
        self.value
    }

    pub closed spec fn flags(&self) -> CharFlags {
        self.flags
    }

    pub closed spec fn handle(&self) -> u16 {
        self.handle
    }

    /// A characteristic with no descriptors, an empty value and no requested handle.
    pub fn new(uuid: UUID, flags: CharFlags) -> (r: Characteristic<F>)
        ensures
            r.key() == uuid,
            r.flags() == flags,
            r.handle() == 0,
            r.descs() == Seq::<Descriptor<F>>::empty(),
            r.value() matches ValOrFn::Value(v) && v@ == Seq::<u8>::empty(),
    {
        Characteristic { uuid, flags, descs: Vec::new(), handle: 0, value: ValOrFn::default() }
    }

    /// Sets the handle to request from Bluez (`None` lets Bluez pick one).
    pub fn set_handle(&mut self, handle: Option<u16>)
        ensures
            final(self).handle() == handle_of(handle),
            final(self).key() == old(self).key(),
            final(self).flags() == old(self).flags(),
            final(self).value() == old(self).value(),
            final(self).descs() == old(self).descs(),
    {
        proof {
            use_type_invariant(&*self);
        }
        self.handle = match handle {
            Some(h) => h,
            None => 0,
        };
    }

    /// Sets the value, or the function that gives it.
    pub fn set_value(&mut self, value: ValOrFn<F>)
        ensures
            final(self).value() == value,
            final(self).key() == old(self).key(),
            final(self).flags() == old(self).flags(),
            final(self).handle() == old(self).handle(),
            final(self).descs() == old(self).descs(),
    {
        proof {
            use_type_invariant(&*self);
        }
        self.value = value;
    }

    /// The UUID of the characteristic.
    pub fn uuid(&self) -> (r: UUID)
        ensures
            r == self.key(),
    {
        self.uuid
    }

    /// Takes the descriptors out.
    fn take_descs(&mut self) -> (r: Vec<Descriptor<F>>)
        ensures
            r@ == old(self).descs(),
            unique_keys(r@),
            final(self).descs() == Seq::<Descriptor<F>>::empty(),
            final(self).key() == old(self).key(),
            final(self).flags() == old(self).flags(),
            final(self).handle() == old(self).handle(),
            final(self).value() == old(self).value(),
    {
        proof {
            use_type_invariant(&*self);
        }
        let mut v = Vec::new();
        std::mem::swap(&mut v, &mut self.descs);
        v
    }

    /// Adds a descriptor; it replaces the one with the same UUID, if there is one.
    pub fn add_desc(&mut self, desc: Descriptor<F>)
        ensures
            final(self).descs() == upsert_spec(old(self).descs(), desc),
            item_with_key(final(self).descs(), desc.key()) == Some(desc),
            forall|k: UUID|
                k != desc.key() ==> #[trigger] item_with_key(final(self).descs(), k) == item_with_key(
                    old(self).descs(),
                    k,
                ),
            final(self).key() == old(self).key(),
            final(self).flags() == old(self).flags(),
            final(self).handle() == old(self).handle(),
            final(self).value() == old(self).value(),
    {
        let mut v = self.take_descs();
        proof {
            lemma_upsert(v@, desc);
        }
        upsert(&mut v, desc);
        self.descs = v;
    }

    /// Takes out the descriptor with the UUID `uuid`, if there is one.
    pub fn remove_desc(&mut self, uuid: UUID) -> (r: Option<Descriptor<F>>)
        ensures
            final(self).descs() == remove_key_spec(old(self).descs(), uuid),
            r == item_with_key(old(self).descs(), uuid),
            item_with_key(final(self).descs(), uuid) is None,
            forall|k: UUID|
                k != uuid ==> #[trigger] item_with_key(final(self).descs(), k) == item_with_key(
                    old(self).descs(),
                    k,
                ),
            final(self).key() == old(self).key(),
            final(self).flags() == old(self).flags(),
            final(self).handle() == old(self).handle(),
            final(self).value() == old(self).value(),
    {
        let mut v = self.take_descs();
        proof {
            lemma_remove_key(v@, uuid);
        }
        let r = remove_key(&mut v, uuid);
        self.descs = v;
        r
    }

    /// Takes out all of the descriptors.
    pub fn drain_descs(&mut self) -> (r: Vec<Descriptor<F>>)
        ensures
            r@ == old(self).descs(),
            final(self).descs() == Seq::<Descriptor<F>>::empty(),
            final(self).key() == old(self).key(),
            final(self).flags() == old(self).flags(),
            final(self).handle() == old(self).handle(),
            final(self).value() == old(self).value(),
    {
        self.take_descs()
    }

    /// The value, UUID, flags and requested handle of the characteristic.
    pub fn into_parts(self) -> (r: (ValOrFn<F>, UUID, CharFlags, u16))
        ensures
            r == (self.value(), self.key(), self.flags(), self.handle()),
    {
        (self.value, self.uuid, self.flags, self.handle)
    }

    /// A characteristic without descriptors made of its value, UUID, flags and requested
    /// handle.
    pub fn from_parts(value: ValOrFn<F>, uuid: UUID, flags: CharFlags, handle: u16) -> (r:
        Characteristic<F>)
        ensures
            r.value() == value,
            r.key() == uuid,
            r.flags() == flags,
            r.handle() == handle,
            r.descs() == Seq::<Descriptor<F>>::empty(),
    {
        Characteristic { value, uuid, flags, handle, descs: Vec::new() }
    }

    /// The number of descriptors.
    pub fn desc_cnt(&self) -> (r: usize)
        ensures
            r == self.descs().len(),
    {
        self.descs.len()
    }

    /// Whether the characteristic has a descriptor with the UUID `uuid`.
    pub fn has_desc(&self, uuid: UUID) -> (r: bool)
        ensures
            r == crate::keyed::has_key(self.descs(), uuid),
    {
        position_of(&self.descs, uuid).is_some()
    }
}

/// A GATT service that is to be added to an application. A service that is not primary is
/// meant to be included by another service.
pub struct Service<F> {
    chars: Vec<Characteristic<F>>,
    includes: Vec<UUID>,
    handle: u16,
    uuid: UUID,
    primary: bool,
}

impl<F> UuidKeyed for Service<F> {
    closed spec fn key(&self) -> UUID {
        self.uuid
    }

    fn key_of(&self) -> (r: UUID) {
        self.uuid
    }
}

/// No UUID occurs twice in `s`.
pub open spec fn no_dups(s: Seq<UUID>) -> bool {
    forall|i: int, j: int| 0 <= i < j < s.len() ==> s[i] != s[j]
}

/// Where `u` first occurs in `v`.
fn uuid_position(v: &Vec<UUID>, u: UUID) -> (r: Option<usize>)
    ensures
        match r {
            Some(i) => i < v@.len() && v@[i as int] == u,
            None => !v@.contains(u),
        },
{
    let mut i: usize = 0;
    while i < v.len()
        invariant
            i <= v@.len(),
            forall|j: int| 0 <= j < i ==> v@[j] != u,
        decreases v@.len() - i,
    {
        if v[i] == u {
            return Some(i);
        }
        i = i + 1;
    }
    None
}

impl<F> Service<F> {
    #[verifier::type_invariant]
    spec fn inv(self) -> bool {
        unique_keys(self.chars@) && no_dups(self.includes@)
    }

    pub closed spec fn chars(&self) -> Seq<Characteristic<F>> {
        self.chars@
    }

    pub closed spec fn included(&self) -> Seq<UUID> {
        self.includes@
    }

    pub closed spec fn handle(&self) -> u16 {
        self.handle
    }

    pub closed spec fn primary(&self) -> bool {
        self.primary
    }

    /// A service with no characteristics, no included services and no requested handle.
    pub fn new(uuid: UUID, primary: bool) -> (r: Service<F>)
        ensures
            r.key() == uuid,
            r.primary() == primary,
            r.handle() == 0,
            r.chars() == Seq::<Characteristic<F>>::empty(),
            r.included() == Seq::<UUID>::empty(),
    {
        Service { uuid, primary, handle: 0, chars: Vec::new(), includes: Vec::new() }
    }

    /// Sets the handle to request from Bluez (`None` lets Bluez pick one). Bluez refuses to
    /// register an application whose requested handles clash.
    pub fn set_handle(&mut self, handle: Option<u16>)
        ensures
            final(self).handle() == handle_of(handle),
            final(self).key() == old(self).key(),
            final(self).primary() == old(self).primary(),
            final(self).chars() == old(self).chars(),
            final(self).included() == old(self).included(),
    {
        proof {
            use_type_invariant(&*self);
        }
        self.handle = match handle {
            Some(h) => h,
            None => 0,
        };
    }

    /// Takes the characteristics out.
    fn take_chars(&mut self) -> (r: Vec<Characteristic<F>>)
        ensures
            r@ == old(self).chars(),
            unique_keys(r@),
            final(self).chars() == Seq::<Characteristic<F>>::empty(),
            final(self).key() == old(self).key(),
            final(self).primary() == old(self).primary(),
            final(self).handle() == old(self).handle(),
            final(self).included() == old(self).included(),
            no_dups(final(self).included()),
    {
        proof {
            use_type_invariant(&*self);
        }
        let mut v = Vec::new();
        std::mem::swap(&mut v, &mut self.chars);
        v
    }

    /// Adds a characteristic; it replaces the one with the same UUID, if there is one.
    pub fn add_char(&mut self, character: Characteristic<F>)
        ensures
            final(self).chars() == upsert_spec(old(self).chars(), character),
            item_with_key(final(self).chars(), character.key()) == Some(character),
            forall|k: UUID|
                k != character.key() ==> #[trigger] item_with_key(final(self).chars(), k)
                    == item_with_key(old(self).chars(), k),
            final(self).key() == old(self).key(),
            final(self).primary() == old(self).primary(),
            final(self).handle() == old(self).handle(),
            final(self).included() == old(self).included(),
    {
        let mut v = self.take_chars();
        proof {
            lemma_upsert(v@, character);
        }
        upsert(&mut v, character);
        self.chars = v;
    }

    /// The UUIDs of the services that this one includes.
    pub fn includes(&self) -> (r: &[UUID])
        ensures
            r@ == self.included(),
    {
        self.includes.as_slice()
    }

    /// The characteristics of the service.
    pub fn characteristics(&self) -> (r: &[Characteristic<F>])
        ensures
            r@ == self.chars(),
    {
        self.chars.as_slice()
    }

    /// Takes the included UUIDs out.
    fn take_includes(&mut self) -> (r: Vec<UUID>)
        ensures
            r@ == old(self).included(),
            no_dups(r@),
            final(self).included() == Seq::<UUID>::empty(),
            final(self).key() == old(self).key(),
            final(self).primary() == old(self).primary(),
            final(self).handle() == old(self).handle(),
            final(self).chars() == old(self).chars(),
            unique_keys(final(self).chars()),
    {
        proof {
            use_type_invariant(&*self);
        }
        let mut v = Vec::new();
        std::mem::swap(&mut v, &mut self.includes);
        v
    }

    /// Includes the service `service`, unless it is included already.
    pub fn add_includes(&mut self, service: UUID)
        ensures
            final(self).included() == if old(self).included().contains(service) {
                old(self).included()
            } else {
                old(self).included().push(service)
            },
            final(self).key() == old(self).key(),
            final(self).primary() == old(self).primary(),
            final(self).handle() == old(self).handle(),
            final(self).chars() == old(self).chars(),
    {
        let mut v = self.take_includes();
        match uuid_position(&v, service) {
            Some(_) => {},
            None => {
                v.push(service);
            },
        }
        self.includes = v;
    }

    /// Stops including the service `service`.
    pub fn remove_includes(&mut self, service: UUID)
        ensures
            !final(self).included().contains(service),
            forall|u: UUID|
                u != service ==> #[trigger] final(self).included().contains(u) == old(self).included().contains(u),
            final(self).key() == old(self).key(),
            final(self).primary() == old(self).primary(),
            final(self).handle() == old(self).handle(),
            final(self).chars() == old(self).chars(),
    {
        let mut v = self.take_includes();
        let ghost v0 = v@;
        match uuid_position(&v, service) {
            Some(i) => {
                v.remove(i);
                proof {
                    let t = v@;
                    assert forall|a: int, b: int| 0 <= a < b < t.len() implies t[a] != t[b] by {
                        let a0 = if a < i { a } else { a + 1 };
                        let b0 = if b < i { b } else { b + 1 };
                        assert(t[a] == v0[a0]);
                        assert(t[b] == v0[b0]);
                    }
                    if t.contains(service) {
                        let k = choose|k: int| 0 <= k < t.len() && t[k] == service;
                        let k0 = if k < i { k } else { k + 1 };
                        assert(t[k] == v0[k0]);
                    }
                    assert forall|u: UUID| u != service implies #[trigger] t.contains(u)
                        == v0.contains(u) by {
                        if v0.contains(u) {
                            let k = choose|k: int| 0 <= k < v0.len() && v0[k] == u;
                            assert(k != i);
                            let k2 = if k < i { k } else { k - 1 };
                            assert(t[k2] == u);
                        }
                        if t.contains(u) {
                            let k = choose|k: int| 0 <= k < t.len() && t[k] == u;
                            let k0 = if k < i { k } else { k + 1 };
                            assert(t[k] == v0[k0]);
                        }
                    }
                }
            },
            None => {},
        }
        self.includes = v;
    }

    /// Takes out the characteristic with the UUID `uuid`, if there is one.
    pub fn remove_char(&mut self, uuid: UUID) -> (r: Option<Characteristic<F>>)
        ensures
            final(self).chars() == remove_key_spec(old(self).chars(), uuid),
            r == item_with_key(old(self).chars(), uuid),
            item_with_key(final(self).chars(), uuid) is None,
            forall|k: UUID|
                k != uuid ==> #[trigger] item_with_key(final(self).chars(), k) == item_with_key(
                    old(self).chars(),
                    k,
                ),
            final(self).key() == old(self).key(),
            final(self).primary() == old(self).primary(),
            final(self).handle() == old(self).handle(),
            final(self).included() == old(self).included(),
    {
        let mut v = self.take_chars();
        proof {
            lemma_remove_key(v@, uuid);
        }
        let r = remove_key(&mut v, uuid);
        self.chars = v;
        r
    }

    /// The UUID of the service.
    pub fn uuid(&self) -> (r: UUID)
        ensures
            r == self.key(),
    {
        self.uuid
    }

    /// Takes out all of the characteristics.
    pub fn drain_chrcs(&mut self) -> (r: Vec<Characteristic<F>>)
        ensures
            r@ == old(self).chars(),
            final(self).chars() == Seq::<Characteristic<F>>::empty(),
            final(self).key() == old(self).key(),
            final(self).primary() == old(self).primary(),
            final(self).handle() == old(self).handle(),
            final(self).included() == old(self).included(),
    {
        self.take_chars()
    }

    /// The handle requested from Bluez (0 when none is).
    pub fn get_handle(&self) -> (r: u16)
        ensures
            r == self.handle(),
    {
        self.handle
    }

    /// Whether the service is primary.
    pub fn is_primary(&self) -> (r: bool)
        ensures
            r == self.primary(),
    {
        self.primary
    }

    /// The number of characteristics.
    pub fn chrc_cnt(&self) -> (r: usize)
        ensures
            r == self.chars().len(),
    {
        self.chars.len()
    }
}

} // verus!
