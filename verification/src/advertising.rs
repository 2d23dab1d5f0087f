//! Advertisements and broadcasts of the local adapter: their properties, and the calls
//! that Bluez makes on them.
use vstd::prelude::*;

use crate::path::{ObjectPath, ObjectPathBuf};
use crate::properties::{BluezOptions, PropError, PropValue, BLUEZ_ADV_IF, INTRO_IF, PROPS_IF};
use crate::strbuf::str_eq;
use crate::uuid::UUID;

verus! {

/// Whether the advertisement is connectable.
#[derive(Clone, Copy, Debug, PartialEq, Eq, Structural)]
pub enum AdType {
    Peripheral,
    Broadcast,
}

/// The name Bluez gives an advertisement type.
pub open spec fn ad_type_name(t: AdType) -> Seq<char> {
    match t {
        AdType::Peripheral => "peripheral"@,
        AdType::Broadcast => "broadcast"@,
    }
}

impl AdType {
    /// The name Bluez gives the type.
    pub fn to_str(&self) -> (r: &'static str)
        ensures
            r@ == ad_type_name(*self),
    {
        match self {
            AdType::Peripheral => "peripheral",
            AdType::Broadcast => "broadcast",
        }
    }
}

/// An advertisement of the adapter at `hci`.
#[derive(Clone)]
pub struct Advertisement {
    pub hci: ObjectPathBuf,
    pub services: Vec<UUID>,
    pub solicit: Vec<UUID>,
    pub dest: Option<String>,
    pub name: Option<String>,
    pub typ: AdType,
    pub duration: u16,
    pub timeout: u16,
    pub manu_data: ManuData,
    pub serv_data: ServData,
}

/// The manufacturer data of an advertisement: bytes by manufacturer name, at most one entry
/// per name.
pub struct ManuData {
    entries: Vec<(String, Vec<u8>)>,
}

/// The service data of an advertisement: bytes by service UUID, at most one entry per UUID.
pub struct ServData {
    entries: Vec<(UUID, Vec<u8>)>,
}

/// The methods of an advertisement, by interface and member name.
#[derive(Clone, Copy, Debug, PartialEq, Eq, Structural)]
pub enum AdMethod {
    Properties,
    Introspect,
    /// Bluez no longer advertises it.
    Release,
    /// A member of the advertisement interface that the advertisement does not have.
    UnknownMethod,
    /// An interface that the advertisement does not have.
    UnknownInterface,
}

/// The properties of an advertisement.
#[derive(Clone, Copy, Debug, PartialEq, Eq, Structural)]
pub enum AdProp {
    ServiceUUIDs,
    Type,
    ManufacturerData,
    SolicitUUIDs,
    ServiceData,
}

/// The method that a call on `interface` with `member` is for.
pub open spec fn ad_method_of(interface: Seq<char>, member: Seq<char>) -> AdMethod {
    if interface == PROPS_IF@ {
        AdMethod::Properties
    } else if interface == INTRO_IF@ {
        AdMethod::Introspect
    } else if interface == BLUEZ_ADV_IF@ {
        if member == "Release"@ {
            AdMethod::Release
        } else {
            AdMethod::UnknownMethod
        }
    } else {
        AdMethod::UnknownInterface
    }
}

/// The property named `prop`, if the advertisement has one by that name.
pub open spec fn ad_prop_of(prop: Seq<char>) -> Option<AdProp> {
    if prop == "Type"@ {
        Some(AdProp::Type)
    } else if prop == "ServiceUUIDs"@ {
        Some(AdProp::ServiceUUIDs)
    } else if prop == "ManufacturerData"@ {
        Some(AdProp::ManufacturerData)
    } else if prop == "SolicitUUIDs"@ {
        Some(AdProp::SolicitUUIDs)
    } else if prop == "ServiceData"@ {
        Some(AdProp::ServiceData)
    } else {
        None
    }
}

/// The name by which Bluez asks for the property `p`.
pub open spec fn ad_prop_text(p: AdProp) -> Seq<char> {
    match p {
        AdProp::ServiceUUIDs => "ServiceUUIDs"@,
        AdProp::Type => "Type"@,
        AdProp::ManufacturerData => "ManufacturerData"@,
        AdProp::SolicitUUIDs => "SolicitUUIDs"@,
        AdProp::ServiceData => "ServiceData"@,
    }
}

/// A property is found by its name, and a name that finds a property is that property's
/// name.
pub proof fn lemma_ad_prop_text(p: AdProp, prop: Seq<char>)
    ensures
        ad_prop_of(ad_prop_text(p)) == Some(p),
        ad_prop_of(prop) == Some(p) ==> prop == ad_prop_text(p),
{
    reveal_strlit("ServiceUUIDs");
    reveal_strlit("Type");
    reveal_strlit("ManufacturerData");
    reveal_strlit("SolicitUUIDs");
    reveal_strlit("ServiceData");
    assert("ServiceUUIDs"@.len() == 12 && "ServiceUUIDs"@[0] == 'S' && "ServiceUUIDs"@[1] == 'e');
    assert("Type"@.len() == 4 && "Type"@[0] == 'T' && "Type"@[1] == 'y');
    assert("ManufacturerData"@.len() == 16 && "ManufacturerData"@[0] == 'M' && "ManufacturerData"@[1] == 'a');
    assert("SolicitUUIDs"@.len() == 12 && "SolicitUUIDs"@[0] == 'S' && "SolicitUUIDs"@[1] == 'o');
    assert("ServiceData"@.len() == 11 && "ServiceData"@[0] == 'S' && "ServiceData"@[1] == 'e');
}

/// The properties of the advertisement interface, in the order `GetAll` gives them.
pub open spec fn ad_props() -> Seq<AdProp> {
    seq![
        AdProp::ServiceUUIDs,
        AdProp::Type,
        AdProp::ManufacturerData,
        AdProp::SolicitUUIDs,
        AdProp::ServiceData,
    ]
}

/// Manufacturer data as mathematical values.
pub open spec fn data_map_view(m: Seq<(String, Vec<u8>)>) -> Seq<(Seq<char>, Seq<u8>)> {
    m.map_values(|e: (String, Vec<u8>)| (e.0@, e.1@))
}

/// Service data as mathematical values.
pub open spec fn uuid_map_view(m: Seq<(UUID, Vec<u8>)>) -> Seq<(UUID, Seq<u8>)> {
    m.map_values(|e: (UUID, Vec<u8>)| (e.0, e.1@))
}

/// Finds the method that a call is for.
pub fn ad_method(interface: &str, member: &str) -> (r: AdMethod)
    ensures
        r == ad_method_of(interface@, member@),
{
    if str_eq(interface, PROPS_IF) {
        AdMethod::Properties
    } else if str_eq(interface, INTRO_IF) {
        AdMethod::Introspect
    } else if str_eq(interface, BLUEZ_ADV_IF) {
        if str_eq(member, "Release") {
            AdMethod::Release
        } else {
            AdMethod::UnknownMethod
        }
    } else {
        AdMethod::UnknownInterface
    }
}

/// The name of the property `p`, as advertisements are asked for it.
pub fn ad_prop_name(p: AdProp) -> (r: &'static str)
    ensures
        ad_prop_of(r@) == Some(p),
{
    proof {
        reveal_strlit("ServiceUUIDs");
        reveal_strlit("Type");
        reveal_strlit("ManufacturerData");
        reveal_strlit("SolicitUUIDs");
        reveal_strlit("ServiceData");
        assert("ServiceUUIDs"@.len() == 12 && "ServiceUUIDs"@[0] == 'S' && "ServiceUUIDs"@[1] == 'e');
        assert("Type"@.len() == 4 && "Type"@[0] == 'T' && "Type"@[1] == 'y');
        assert("ManufacturerData"@.len() == 16 && "ManufacturerData"@[0] == 'M' && "ManufacturerData"@[1] == 'a');
        assert("SolicitUUIDs"@.len() == 12 && "SolicitUUIDs"@[0] == 'S' && "SolicitUUIDs"@[1] == 'o');
        assert("ServiceData"@.len() == 11 && "ServiceData"@[0] == 'S' && "ServiceData"@[1] == 'e');
    }
    match p {
        AdProp::ServiceUUIDs => "ServiceUUIDs",
        AdProp::Type => "Type",
        AdProp::ManufacturerData => "ManufacturerData",
        AdProp::SolicitUUIDs => "SolicitUUIDs",
        AdProp::ServiceData => "ServiceData",
    }
}

/// Finds the property named `prop`.
pub fn ad_prop(prop: &str) -> (r: Option<AdProp>)
    ensures
        r == ad_prop_of(prop@),
{
    if str_eq(prop, "Type") {
        Some(AdProp::Type)
    } else if str_eq(prop, "ServiceUUIDs") {
        Some(AdProp::ServiceUUIDs)
    } else if str_eq(prop, "ManufacturerData") {
        Some(AdProp::ManufacturerData)
    } else if str_eq(prop, "SolicitUUIDs") {
        Some(AdProp::SolicitUUIDs)
    } else if str_eq(prop, "ServiceData") {
        Some(AdProp::ServiceData)
    } else {
        None
    }
}

/// A copy of a list of UUIDs.
pub fn copy_uuids(v: &Vec<UUID>) -> (r: Vec<UUID>)
    ensures
        r@ == v@,
{
    let mut out: Vec<UUID> = Vec::new();
    let mut i: usize = 0;
    while i < v.len()
        invariant
            i <= v@.len(),
            out@ == v@.take(i as int),
        decreases v@.len() - i,
    {
        out.push(v[i]);
        i = i + 1;
        assert(out@ =~= v@.take(i as int));
    }
    assert(v@.take(v@.len() as int) =~= v@);
    out
}

/// A copy of a list of bytes.
pub fn copy_bytes(v: &Vec<u8>) -> (r: Vec<u8>)
    ensures
        r@ == v@,
{
    let mut out: Vec<u8> = Vec::new();
    let mut i: usize = 0;
    while i < v.len()
        invariant
            i <= v@.len(),
            out@ == v@.take(i as int),
        decreases v@.len() - i,
    {
        out.push(v[i]);
        i = i + 1;
        assert(out@ =~= v@.take(i as int));
    }
    assert(v@.take(v@.len() as int) =~= v@);
    out
}

/// No two entries of `m` have the same key.
pub open spec fn data_keys_distinct(m: Seq<(Seq<char>, Seq<u8>)>) -> bool {
    forall|i: int, j: int| 0 <= i < j < m.len() ==> #[trigger] m[i].0 != #[trigger] m[j].0
}

/// No two entries of `m` have the same UUID.
pub open spec fn uuid_keys_distinct(m: Seq<(UUID, Seq<u8>)>) -> bool {
    forall|i: int, j: int| 0 <= i < j < m.len() ==> #[trigger] m[i].0 != #[trigger] m[j].0
}

/// What the property `p` of the advertisement `a` holds.
pub open spec fn ad_prop_is(a: Advertisement, p: AdProp, v: PropValue) -> bool {
    match p {
        AdProp::Type => v == PropValue::Str(ad_type_name(a.typ)),
        AdProp::ServiceUUIDs => v == PropValue::UUIDs(a.services@),
        AdProp::ManufacturerData => v == PropValue::DataMap(a.manu_data@),
        AdProp::SolicitUUIDs => v == PropValue::UUIDs(a.solicit@),
        AdProp::ServiceData => v == PropValue::UUIDMap(a.serv_data@),
    }
}

impl View for ManuData {
    type V = Seq<(Seq<char>, Seq<u8>)>;

    closed spec fn view(&self) -> Seq<(Seq<char>, Seq<u8>)> {
        data_map_view(self.entries@)
    }
}

impl View for ServData {
    type V = Seq<(UUID, Seq<u8>)>;

    closed spec fn view(&self) -> Seq<(UUID, Seq<u8>)> {
        uuid_map_view(self.entries@)
    }
}

impl ManuData {
    /// No manufacturer name has two entries.
    #[verifier::type_invariant]
    spec fn names_distinct(self) -> bool {
        data_keys_distinct(data_map_view(self.entries@))
    }

    fn empty() -> (r: ManuData)
        ensures
            r@ == Seq::<(Seq<char>, Seq<u8>)>::empty(),
    {
        let r = ManuData { entries: Vec::new() };
        assert(r@ =~= Seq::<(Seq<char>, Seq<u8>)>::empty());
        r
    }

    /// A copy of the entries, in the order they are held.
    pub fn to_vec(&self) -> (r: Vec<(String, Vec<u8>)>)
        ensures
            data_map_view(r@) == self@,
            data_keys_distinct(self@),
    {
        proof {
            use_type_invariant(self);
        }
        let mut out: Vec<(String, Vec<u8>)> = Vec::new();
        let mut i: usize = 0;
        while i < self.entries.len()
            invariant
                i <= self.entries@.len(),
                out@.len() == i,
                forall|j: int|
                    0 <= j < i ==> #[trigger] out@[j].0@ == self.entries@[j].0@
                        && out@[j].1@ == self.entries@[j].1@,
            decreases self.entries@.len() - i,
        {
            let k = self.entries[i].0.clone();
            let v = copy_bytes(&self.entries[i].1);
            out.push((k, v));
            i = i + 1;
        }
        assert(data_map_view(out@) =~= data_map_view(self.entries@));
        out
    }
}

impl Clone for ManuData {
    fn clone(&self) -> (r: Self)
        ensures
            r@ == self@,
    {
        ManuData { entries: self.to_vec() }
    }
}

impl Clone for ServData {
    fn clone(&self) -> (r: Self)
        ensures
            r@ == self@,
    {
        ServData { entries: self.to_vec() }
    }
}

impl ServData {
    /// No service UUID has two entries.
    #[verifier::type_invariant]
    spec fn uuids_distinct(self) -> bool {
        uuid_keys_distinct(uuid_map_view(self.entries@))
    }

    fn empty() -> (r: ServData)
        ensures
            r@ == Seq::<(UUID, Seq<u8>)>::empty(),
    {
        let r = ServData { entries: Vec::new() };
        assert(r@ =~= Seq::<(UUID, Seq<u8>)>::empty());
        r
    }

    /// A copy of the entries, in the order they are held.
    pub fn to_vec(&self) -> (r: Vec<(UUID, Vec<u8>)>)
        ensures
            uuid_map_view(r@) == self@,
            uuid_keys_distinct(self@),
    {
        proof {
            use_type_invariant(self);
        }
        let mut out: Vec<(UUID, Vec<u8>)> = Vec::new();
        let mut i: usize = 0;
        while i < self.entries.len()
            invariant
                i <= self.entries@.len(),
                out@.len() == i,
                forall|j: int|
                    0 <= j < i ==> #[trigger] out@[j].0 == self.entries@[j].0
                        && out@[j].1@ == self.entries@[j].1@,
            decreases self.entries@.len() - i,
        {
            let k = self.entries[i].0;
            let v = copy_bytes(&self.entries[i].1);
            out.push((k, v));
            assert(out@[i as int].0 == self.entries@[i as int].0);
            i = i + 1;
        }
        assert(uuid_map_view(out@) =~= uuid_map_view(self.entries@));
        out
    }
}

impl Advertisement {
    /// A peripheral advertisement of the adapter at `hci`, with no services, data, name,
    /// duration or timeout.
    pub fn for_adapter(hci: ObjectPathBuf) -> (r: Advertisement)
        ensures
            r.hci@ == hci@,
            r.services@ == Seq::<UUID>::empty(),
            r.solicit@ == Seq::<UUID>::empty(),
            r.typ == AdType::Peripheral,
            r.name is None,
            r.dest is None,
            r.duration == 0,
            r.timeout == 0,
            r.manu_data@ == Seq::<(Seq<char>, Seq<u8>)>::empty(),
            r.serv_data@ == Seq::<(UUID, Seq<u8>)>::empty(),
    {
        Advertisement {
            services: Vec::new(),
            solicit: Vec::new(),
            typ: AdType::Peripheral,
            manu_data: ManuData::empty(),
            serv_data: ServData::empty(),
            duration: 0,
            timeout: 0,
            dest: None,
            name: None,
            hci,
        }
    }

    /// The path of the adapter.
    pub fn hci(&self) -> (r: &ObjectPath)
        ensures
            r@ == self.hci@,
    {
        self.hci.as_object_path()
    }

    /// The D-Bus name that the advertisement holds, if it holds one.
    pub fn dest(&self) -> (r: &Option<String>)
        ensures
            *r == self.dest,
    {
        &self.dest
    }

    /// Records the D-Bus name that the advertisement holds.
    pub fn set_dest_name(&mut self, dest: Option<String>)
        ensures
            final(self).dest == dest,
            final(self).hci == old(self).hci,
            final(self).services == old(self).services,
            final(self).solicit == old(self).solicit,
            final(self).name == old(self).name,
            final(self).typ == old(self).typ,
            final(self).duration == old(self).duration,
            final(self).timeout == old(self).timeout,
            final(self).manu_data == old(self).manu_data,
            final(self).serv_data == old(self).serv_data,
    {
        self.dest = dest;
    }

    /// Reads the property `p`.
    pub fn prop_value(&self, p: AdProp) -> (r: BluezOptions)
        ensures
            ad_prop_is(*self, p, r@),
            data_keys_distinct(self.manu_data@),
            uuid_keys_distinct(self.serv_data@),
    {
        proof {
            use_type_invariant(&self.manu_data);
            use_type_invariant(&self.serv_data);
        }
        match p {
            AdProp::Type => {
                let s = self.typ.to_str();
                BluezOptions::Str(s.to_owned())
            },
            AdProp::ServiceUUIDs => BluezOptions::UUIDs(copy_uuids(&self.services)),
            AdProp::ManufacturerData => BluezOptions::DataMap(self.manu_data.to_vec()),
            AdProp::SolicitUUIDs => BluezOptions::UUIDs(copy_uuids(&self.solicit)),
            AdProp::ServiceData => BluezOptions::UUIDMap(self.serv_data.to_vec()),
        }
    }

    /// Reads the property `prop` of `interface`.
    pub fn get_inner(&self, interface: &str, prop: &str) -> (r: Result<BluezOptions, PropError>)
        ensures
            interface@ != BLUEZ_ADV_IF@ ==> r == Err::<BluezOptions, PropError>(
                PropError::InterfaceNotFound,
            ),
            interface@ == BLUEZ_ADV_IF@ ==> match ad_prop_of(prop@) {
                None => r == Err::<BluezOptions, PropError>(PropError::PropertyNotFound),
                Some(p) => (r matches Ok(v) && ad_prop_is(*self, p, v@)),
            },
            data_keys_distinct(self.manu_data@),
            uuid_keys_distinct(self.serv_data@),
    {
        proof {
            use_type_invariant(&self.manu_data);
            use_type_invariant(&self.serv_data);
        }
        if !str_eq(interface, BLUEZ_ADV_IF) {
            return Err(PropError::InterfaceNotFound);
        }
        match ad_prop(prop) {
            None => Err(PropError::PropertyNotFound),
            Some(p) => Ok(self.prop_value(p)),
        }
    }

    /// Writes the property `prop` of `interface`: no property can be written.
    pub fn set_inner(&self, interface: &str, prop: &str) -> (r: Result<(), PropError>)
        ensures
            interface@ != BLUEZ_ADV_IF@ ==> r == Err::<(), PropError>(PropError::InterfaceNotFound),
            interface@ == BLUEZ_ADV_IF@ ==> r == Err::<(), PropError>(
                if ad_prop_of(prop@) is Some {
                    PropError::PermissionDenied
                } else {
                    PropError::PropertyNotFound
                },
            ),
    {
        if !str_eq(interface, BLUEZ_ADV_IF) {
            return Err(PropError::InterfaceNotFound);
        }
        match ad_prop(prop) {
            Some(_) => Err(PropError::PermissionDenied),
            None => Err(PropError::PropertyNotFound),
        }
    }

    /// Reads all of the properties of `interface`, in the order of `ad_props`.
    pub fn get_all_inner(&self, interface: &str) -> (r: Result<Vec<(AdProp, BluezOptions)>, PropError>)
        ensures
            interface@ != BLUEZ_ADV_IF@ ==> r == Err::<Vec<(AdProp, BluezOptions)>, PropError>(
                PropError::InterfaceNotFound,
            ),
            interface@ == BLUEZ_ADV_IF@ ==> (r matches Ok(l) && l@.len() == ad_props().len()
                && forall|i: int|
                0 <= i < l@.len() ==> #[trigger] l@[i].0 == ad_props()[i] && ad_prop_is(
                    *self,
                    l@[i].0,
                    l@[i].1@,
                )),
    {
        if !str_eq(interface, BLUEZ_ADV_IF) {
            return Err(PropError::InterfaceNotFound);
        }
        let props: [AdProp; 5] = [
            AdProp::ServiceUUIDs,
            AdProp::Type,
            AdProp::ManufacturerData,
            AdProp::SolicitUUIDs,
            AdProp::ServiceData,
        ];
        assert(props@ =~= ad_props());
        let mut out: Vec<(AdProp, BluezOptions)> = Vec::new();
        let mut i: usize = 0;
        while i < 5
            invariant
                props@ == ad_props(),
                i <= 5,
                out@.len() == i,
                forall|j: int|
                    0 <= j < i ==> #[trigger] out@[j].0 == ad_props()[j] && ad_prop_is(
                        *self,
                        out@[j].0,
                        out@[j].1@,
                    ),
            decreases 5 - i,
        {
            let p = props[i];
            let v = self.prop_value(p);
            out.push((p, v));
            i = i + 1;
        }
        Ok(out)
    }
}

} // verus!
