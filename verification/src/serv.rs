//! A local service once its application is registered: its properties, and the calls it
//! answers.
use vstd::prelude::*;

use crate::gatt::Service;
use crate::keyed::UuidKeyed;
use crate::path::ObjectPathBuf;
use crate::properties::{
    BluezOptions, PropError, PropValue, BLUEZ_SER_IF, HANDLE_STR, INC_STR, INTRO_IF, PROPS_IF,
    PRY_STR, UUID_STR,
};
use crate::strbuf::str_eq;
use crate::uuid::{uuid_text, UUID};

verus! {

/// The state of a registered service.
pub struct ServData {
    pub handle: u16,
    pub uuid: UUID,
    /// The number of characteristics under the service.
    pub children: usize,
    /// The paths of the services that this one includes.
    pub includes: Vec<ObjectPathBuf>,
    pub primary: bool,
}

/// The methods of a service, by interface.
#[derive(Clone, Copy, Debug, PartialEq, Eq, Structural)]
pub enum ServMethod {
    Properties,
    Introspect,
    /// An interface that the service does not have.
    UnknownInterface,
}

/// The properties of a service.
#[derive(Clone, Copy, Debug, PartialEq, Eq, Structural)]
pub enum ServProp {
    Uuid,
    Primary,
    Handle,
    Includes,
}

/// The method that a call on `interface` is for.
pub open spec fn serv_method_of(interface: Seq<char>) -> ServMethod {
    if interface == PROPS_IF@ {
        ServMethod::Properties
    } else if interface == INTRO_IF@ {
        ServMethod::Introspect
    } else {
        ServMethod::UnknownInterface
    }
}

/// The property named `prop`, if the service has one by that name.
pub open spec fn serv_prop_of(prop: Seq<char>) -> Option<ServProp> {
    if prop == UUID_STR@ {
        Some(ServProp::Uuid)
    } else if prop == PRY_STR@ {
        Some(ServProp::Primary)
    } else if prop == HANDLE_STR@ {
        Some(ServProp::Handle)
    } else if prop == INC_STR@ {
        Some(ServProp::Includes)
    } else {
        None
    }
}

/// The properties of the service interface, in the order `GetAll` gives them.
pub open spec fn serv_props() -> Seq<ServProp> {
    seq![ServProp::Uuid, ServProp::Primary, ServProp::Handle, ServProp::Includes]
}

/// The texts of a list of paths.
pub open spec fn paths_view(v: Seq<ObjectPathBuf>) -> Seq<Seq<char>> {
    v.map_values(|p: ObjectPathBuf| p@)
}

/// What the property `p` of the service `s` holds.
pub open spec fn serv_prop_is(s: ServData, p: ServProp, v: PropValue) -> bool {
    match p {
        ServProp::Uuid => v == PropValue::Str(uuid_text(s.uuid.0)),
        ServProp::Primary => v == PropValue::Bool(s.primary),
        ServProp::Handle => v == PropValue::U16(s.handle),
        ServProp::Includes => v == PropValue::Paths(paths_view(s.includes@)),
    }
}

/// Finds the method that a call is for.
pub fn serv_method(interface: &str) -> (r: ServMethod)
    ensures
        r == serv_method_of(interface@),
{
    if str_eq(interface, PROPS_IF) {
        ServMethod::Properties
    } else if str_eq(interface, INTRO_IF) {
        ServMethod::Introspect
    } else {
        ServMethod::UnknownInterface
    }
}

/// The name of the property `p`, as services are asked for it.
pub fn serv_prop_name(p: ServProp) -> (r: &'static str)
    ensures
        serv_prop_of(r@) == Some(p),
{
    proof {
        reveal_strlit("UUID");
        reveal_strlit("Primary");
        reveal_strlit("Handle");
        reveal_strlit("Includes");
        assert("UUID"@.len() == 4 && "UUID"@[0] == 'U' && "UUID"@[1] == 'U');
        assert("Primary"@.len() == 7 && "Primary"@[0] == 'P' && "Primary"@[1] == 'r');
        assert("Handle"@.len() == 6 && "Handle"@[0] == 'H' && "Handle"@[1] == 'a');
        assert("Includes"@.len() == 8 && "Includes"@[0] == 'I' && "Includes"@[1] == 'n');
    }
    match p {
        ServProp::Uuid => UUID_STR,
        ServProp::Primary => PRY_STR,
        ServProp::Handle => HANDLE_STR,
        ServProp::Includes => INC_STR,
    }
}

/// Finds the property named `prop`.
pub fn serv_prop(prop: &str) -> (r: Option<ServProp>)
    ensures
        r == serv_prop_of(prop@),
{
    if str_eq(prop, UUID_STR) {
        Some(ServProp::Uuid)
    } else if str_eq(prop, PRY_STR) {
        Some(ServProp::Primary)
    } else if str_eq(prop, HANDLE_STR) {
        Some(ServProp::Handle)
    } else if str_eq(prop, INC_STR) {
        Some(ServProp::Includes)
    } else {
        None
    }
}

/// A copy of a list of paths.
pub fn copy_paths(v: &Vec<ObjectPathBuf>) -> (r: Vec<ObjectPathBuf>)
    ensures
        paths_view(r@) == paths_view(v@),
{
    let mut out: Vec<ObjectPathBuf> = Vec::new();
    let mut i: usize = 0;
    while i < v.len()
        invariant
            i <= v@.len(),
            out@.len() == i,
            forall|j: int| 0 <= j < i ==> #[trigger] out@[j]@ == v@[j]@,
        decreases v@.len() - i,
    {
        let p = v[i].as_object_path().to_owned();
        out.push(p);
        i = i + 1;
    }
    assert(paths_view(out@) =~= paths_view(v@));
    out
}

impl ServData {
    /// The state of a freshly registered service with `children` characteristics.
    pub fn new<F>(serv: &Service<F>, children: usize) -> (r: ServData)
        ensures
            r.uuid == serv.key(),
            r.handle == serv.handle(),
            r.primary == serv.primary(),
            r.children == children,
            r.includes@ == Seq::<ObjectPathBuf>::empty(),
    {
        ServData {
            uuid: serv.uuid(),
            handle: serv.get_handle(),
            primary: serv.is_primary(),
            includes: Vec::new(),
            children,
        }
    }

    /// Records the paths of the included services.
    pub fn set_includes(&mut self, includes: Vec<ObjectPathBuf>)
        ensures
            final(self).includes == includes,
            final(self).uuid == old(self).uuid,
            final(self).handle == old(self).handle,
            final(self).primary == old(self).primary,
            final(self).children == old(self).children,
    {
        self.includes = includes;
    }

    /// Reads the property `p`.
    pub fn prop_value(&self, p: ServProp) -> (r: BluezOptions)
        ensures
            serv_prop_is(*self, p, r@),
    {
        match p {
            ServProp::Uuid => BluezOptions::Str(self.uuid.to_string()),
            ServProp::Primary => BluezOptions::Bool(self.primary),
            ServProp::Handle => BluezOptions::U16(self.handle),
            ServProp::Includes => BluezOptions::Paths(copy_paths(&self.includes)),
        }
    }

    /// Reads the property `prop` of `interface`.
    pub fn get_inner(&self, interface: &str, prop: &str) -> (r: Result<BluezOptions, PropError>)
        ensures
            interface@ != BLUEZ_SER_IF@ ==> r == Err::<BluezOptions, PropError>(
                PropError::InterfaceNotFound,
            ),
            interface@ == BLUEZ_SER_IF@ ==> match serv_prop_of(prop@) {
                None => r == Err::<BluezOptions, PropError>(PropError::PropertyNotFound),
                Some(p) => (r matches Ok(v) && serv_prop_is(*self, p, v@)),
            },
    {
        if !str_eq(interface, BLUEZ_SER_IF) {
            return Err(PropError::InterfaceNotFound);
        }
        match serv_prop(prop) {
            None => Err(PropError::PropertyNotFound),
            Some(p) => Ok(self.prop_value(p)),
        }
    }

    /// Writes the property `prop` of `interface`: only the handle can be written.
    pub fn set_inner(&mut self, interface: &str, prop: &str, val: BluezOptions) -> (r: Result<
        (),
        PropError,
    >)
        ensures
            interface@ != BLUEZ_SER_IF@ ==> r == Err::<(), PropError>(PropError::InterfaceNotFound)
                && final(self).handle == old(self).handle,
            interface@ == BLUEZ_SER_IF@ ==> match serv_prop_of(prop@) {
                Some(ServProp::Handle) => match val {
                    BluezOptions::U16(h) => r is Ok && final(self).handle == h,
                    _ => r == Err::<(), PropError>(PropError::InvalidValue) && final(self).handle
                        == old(self).handle,
                },
                Some(ServProp::Uuid) | Some(ServProp::Primary) => r == Err::<(), PropError>(
                    PropError::PermissionDenied,
                ) && final(self).handle == old(self).handle,
                _ => r == Err::<(), PropError>(PropError::PropertyNotFound) && final(self).handle
                    == old(self).handle,
            },
            final(self).uuid == old(self).uuid,
            final(self).primary == old(self).primary,
            final(self).children == old(self).children,
            final(self).includes == old(self).includes,
    {
        if !str_eq(interface, BLUEZ_SER_IF) {
            return Err(PropError::InterfaceNotFound);
        }
        match serv_prop(prop) {
            Some(ServProp::Handle) => match val {
                BluezOptions::U16(h) => {
                    self.handle = h;
                    Ok(())
                },
                _ => Err(PropError::InvalidValue),
            },
            Some(ServProp::Uuid) | Some(ServProp::Primary) => Err(PropError::PermissionDenied),
            _ => Err(PropError::PropertyNotFound),
        }
    }

    /// Reads all of the properties of `interface`, in the order of `serv_props`.
    pub fn get_all_inner(&self, interface: &str) -> (r: Result<
        Vec<(ServProp, BluezOptions)>,
        PropError,
    >)
        ensures
            interface@ != BLUEZ_SER_IF@ ==> r == Err::<Vec<(ServProp, BluezOptions)>, PropError>(
                PropError::InterfaceNotFound,
            ),
            interface@ == BLUEZ_SER_IF@ ==> (r matches Ok(l) && l@.len() == serv_props().len()
                && forall|i: int|
                0 <= i < l@.len() ==> #[trigger] l@[i].0 == serv_props()[i] && serv_prop_is(
                    *self,
                    l@[i].0,
                    l@[i].1@,
                )),
    {
        if !str_eq(interface, BLUEZ_SER_IF) {
            return Err(PropError::InterfaceNotFound);
        }
        let props: [ServProp; 4] = [
            ServProp::Uuid,
            ServProp::Primary,
            ServProp::Handle,
            ServProp::Includes,
        ];
        assert(props@ =~= serv_props());
        let mut out: Vec<(ServProp, BluezOptions)> = Vec::new();
        let mut i: usize = 0;
        while i < 4
            invariant
                props@ == serv_props(),
                i <= 4,
                out@.len() == i,
                forall|j: int|
                    0 <= j < i ==> #[trigger] out@[j].0 == serv_props()[j] && serv_prop_is(
                        *self,
                        out@[j].0,
                        out@[j].1@,
                    ),
            decreases 4 - i,
        {
            let p = props[i];
            let v = self.prop_value(p);
            out.push((p, v));
            i = i + 1;
        }
        Ok(out)
    }
}

} // verus!
