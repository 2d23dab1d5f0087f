//! Local GATT applications, and the decisions that the library makes around the calls it
//! sends to Bluez and D-Bus: who may call its objects, what to do with its D-Bus name, the
//! paths of its objects, and what the replies it gets back mean.
use vstd::prelude::*;

use crate::att::{AttValue, MAX_CHAR_LEN};
use crate::error::{str_starts_with, Error};
use crate::gatt::Service;
use crate::hex::{dec_fmt, hex_fmt_min, parse_dec_u8, push_dec, push_hex_min, radix10_u8};
use crate::keyed::{
    item_with_key, lemma_remove_key, lemma_upsert, remove_key, remove_key_spec, unique_keys,
    upsert, upsert_spec, UuidKeyed,
};
use crate::mac::{mac_dev_text, MAC};
use crate::path::{ObjectPath, ObjectPathBuf};
use crate::properties::{BluezOptions, BLUEZ_DEST, INTRO_IF, OBJMGR_IF};
use crate::strbuf::{push_str, str_eq};
use crate::uuid::UUID;

verus! {

/// A local GATT application of the adapter at `hci`, served under `base_path`.
pub struct Application<F> {
    services: Vec<Service<F>>,
    dest: Option<String>,
    hci: ObjectPathBuf,
    base_path: ObjectPathBuf,
    filter: bool,
}

impl<F> Application<F> {
    #[verifier::type_invariant]
    spec fn inv(self) -> bool {
        unique_keys(self.services@)
    }

    pub closed spec fn services(&self) -> Seq<Service<F>> {
        self.services@
    }

    pub closed spec fn dest_name(&self) -> Option<String> {
        self.dest
    }

    pub closed spec fn filtered(&self) -> bool {
        self.filter
    }

    pub closed spec fn hci_path(&self) -> Seq<char> {
        self.hci@
    }

    pub closed spec fn base(&self) -> Seq<char> {
        self.base_path@
    }

    /// An application with no services, served under `base_path` for the adapter at `hci`;
    /// calls from others than Bluez are refused.
    pub fn new(hci: &ObjectPath, base_path: &ObjectPath) -> (r: Application<F>)
        ensures
            r.services() == Seq::<Service<F>>::empty(),
            r.dest_name() is None,
            r.filtered(),
            r.hci_path() == hci@,
            r.base() == base_path@,
    {
        Application {
            services: Vec::new(),
            base_path: base_path.to_owned(),
            dest: None,
            filter: true,
            hci: hci.to_owned(),
        }
    }

    /// The path of the adapter.
    pub fn hci(&self) -> (r: &ObjectPath)
        ensures
            r@ == self.hci_path(),
    {
        self.hci.as_object_path()
    }

    /// The path under which the application is served.
    pub fn base_path(&self) -> (r: &ObjectPath)
        ensures
            r@ == self.base(),
    {
        self.base_path.as_object_path()
    }

    /// The D-Bus name that the application holds, if it holds one.
    pub fn dest(&self) -> (r: &Option<String>)
        ensures
            *r == self.dest_name(),
    {
        &self.dest
    }

    /// Records the D-Bus name that the application holds.
    pub fn set_dest_name(&mut self, dest: Option<String>)
        ensures
            final(self).dest_name() == dest,
            final(self).services() == old(self).services(),
            final(self).filtered() == old(self).filtered(),
            final(self).hci_path() == old(self).hci_path(),
            final(self).base() == old(self).base(),
    {
        proof {
            use_type_invariant(&*self);
        }
        self.dest = dest;
    }

    /// Whether calls from others than Bluez are refused.
    pub fn filter(&self) -> (r: bool)
        ensures
            r == self.filtered(),
    {
        self.filter
    }

    /// Sets whether calls from others than Bluez are refused.
    pub fn set_filter(&mut self, filter: bool)
        ensures
            final(self).filtered() == filter,
            final(self).services() == old(self).services(),
            final(self).dest_name() == old(self).dest_name(),
            final(self).hci_path() == old(self).hci_path(),
            final(self).base() == old(self).base(),
    {
        proof {
            use_type_invariant(&*self);
        }
        self.filter = filter;
    }

    /// Takes the services out.
    fn take_services(&mut self) -> (r: Vec<Service<F>>)
        ensures
            r@ == old(self).services(),
            unique_keys(r@),
            final(self).services() == Seq::<Service<F>>::empty(),
            final(self).dest_name() == old(self).dest_name(),
            final(self).filtered() == old(self).filtered(),
            final(self).hci_path() == old(self).hci_path(),
            final(self).base() == old(self).base(),
    {
        proof {
            use_type_invariant(&*self);
        }
        let mut v = Vec::new();
        std::mem::swap(&mut v, &mut self.services);
        v
    }

    /// Adds a service; it replaces the one with the same UUID, if there is one.
    pub fn add_service(&mut self, service: Service<F>)
        ensures
            final(self).services() == upsert_spec(old(self).services(), service),
            item_with_key(final(self).services(), service.key()) == Some(service),
            forall|k: UUID|
                k != service.key() ==> #[trigger] item_with_key(final(self).services(), k)
                    == item_with_key(old(self).services(), k),
            final(self).dest_name() == old(self).dest_name(),
            final(self).filtered() == old(self).filtered(),
            final(self).hci_path() == old(self).hci_path(),
            final(self).base() == old(self).base(),
    {
        let mut v = self.take_services();
        proof {
            lemma_upsert(v@, service);
        }
        upsert(&mut v, service);
        self.services = v;
    }

    /// Takes out the service with the UUID `uuid`, if there is one.
    pub fn remove_service(&mut self, uuid: UUID) -> (r: Option<Service<F>>)
        ensures
            final(self).services() == remove_key_spec(old(self).services(), uuid),
            r == item_with_key(old(self).services(), uuid),
            item_with_key(final(self).services(), uuid) is None,
            forall|k: UUID|
                k != uuid ==> #[trigger] item_with_key(final(self).services(), k) == item_with_key(
                    old(self).services(),
                    k,
                ),
            final(self).dest_name() == old(self).dest_name(),
            final(self).filtered() == old(self).filtered(),
            final(self).hci_path() == old(self).hci_path(),
            final(self).base() == old(self).base(),
    {
        let mut v = self.take_services();
        proof {
            lemma_remove_key(v@, uuid);
        }
        let r = remove_key(&mut v, uuid);
        self.services = v;
        r
    }

    /// Takes out all of the services, to register them.
    pub fn drain_services(&mut self) -> (r: Vec<Service<F>>)
        ensures
            r@ == old(self).services(),
            final(self).services() == Seq::<Service<F>>::empty(),
            final(self).dest_name() == old(self).dest_name(),
            final(self).filtered() == old(self).filtered(),
            final(self).hci_path() == old(self).hci_path(),
            final(self).base() == old(self).base(),
    {
        self.take_services()
    }

    /// The number of services.
    pub fn serv_cnt(&self) -> (r: usize)
        ensures
            r == self.services().len(),
    {
        self.services.len()
    }
}

/// What changing the held D-Bus name takes: nothing when it does not change; else the
/// release of the name held, if there is one, then the request of the new one, if there is
/// The kind of an attribute handed back, when an application is unregistered, by the task
/// that served it.
#[derive(Clone, Copy, Debug, PartialEq, Eq, Structural)]
pub enum PieceKind {
    Service,
    Characteristic,
    Descriptor,
}

/// The kind of attribute that holds an attribute of kind `k` (a service is held by the
/// application itself).
pub open spec fn holder_kind(k: PieceKind) -> Option<PieceKind> {
    match k {
        PieceKind::Service => None,
        PieceKind::Characteristic => Some(PieceKind::Service),
        PieceKind::Descriptor => Some(PieceKind::Characteristic),
    }
}

/// A piece of kind `k` comes before position `i` of `kinds`.
pub open spec fn seen_before(kinds: Seq<PieceKind>, i: int, k: PieceKind) -> bool {
    exists|j: int| 0 <= j < i && kinds[j] == k
}

/// The pieces are put back together in order: each one is held until the next piece of its
/// kind comes, which then hands the held one to the piece that holds it, the latest one of
/// the holder's kind (or to the application, for a service). The pieces fit when every such
/// handing over finds a holder.
pub open spec fn pieces_fit(kinds: Seq<PieceKind>) -> bool {
    forall|i: int|
        0 <= i < kinds.len() && seen_before(kinds, i, #[trigger] kinds[i]) ==> match holder_kind(
            kinds[i],
        ) {
            Some(h) => seen_before(kinds, i, h),
            None => true,
        }
}

/// How the pieces of an unregistered application, of the kinds `kinds` and in that order,
/// are put back together: for each piece, whether it hands the held piece of its kind over
/// to its holder (else there is none held yet). None when the pieces do not fit.
pub fn reassembly_plan(kinds: &[PieceKind]) -> (r: Option<Vec<bool>>)
    ensures
        r is Some <==> pieces_fit(kinds@),
        r matches Some(v) ==> v@.len() == kinds@.len() && forall|i: int|
            0 <= i < kinds@.len() ==> #[trigger] v@[i] == seen_before(kinds@, i, kinds@[i]),
{
    let mut seen_serv = false;
    let mut seen_chrc = false;
    let mut seen_desc = false;
    let mut plan: Vec<bool> = Vec::new();
    let mut i: usize = 0;
    while i < kinds.len()
        invariant
            i <= kinds@.len(),
            plan@.len() == i,
            seen_serv == seen_before(kinds@, i as int, PieceKind::Service),
            seen_chrc == seen_before(kinds@, i as int, PieceKind::Characteristic),
            seen_desc == seen_before(kinds@, i as int, PieceKind::Descriptor),
            forall|j: int| 0 <= j < i ==> #[trigger] plan@[j] == seen_before(kinds@, j, kinds@[j]),
            forall|j: int|
                0 <= j < i && seen_before(kinds@, j, #[trigger] kinds@[j]) ==> match holder_kind(
                    kinds@[j],
                ) {
                    Some(h) => seen_before(kinds@, j, h),
                    None => true,
                },
        decreases kinds@.len() - i,
    {
        let k = kinds[i];
        let flush = match k {
            PieceKind::Service => seen_serv,
            PieceKind::Characteristic => seen_chrc,
            PieceKind::Descriptor => seen_desc,
        };
        let holder_there = match k {
            PieceKind::Service => true,
            PieceKind::Characteristic => seen_serv,
            PieceKind::Descriptor => seen_chrc,
        };
        if flush && !holder_there {
            proof {
                assert(seen_before(kinds@, i as int, kinds@[i as int]));
            }
            return None;
        }
        plan.push(flush);
        proof {
            assert forall|q: PieceKind| #[trigger] seen_before(kinds@, i + 1, q) == (seen_before(
                kinds@,
                i as int,
                q,
            ) || kinds@[i as int] == q) by {
                if seen_before(kinds@, i + 1, q) && !seen_before(kinds@, i as int, q) {
                    let j = choose|j: int| 0 <= j < i + 1 && kinds@[j] == q;
                    assert(j == i);
                }
                if kinds@[i as int] == q {
                    assert(0 <= i < i + 1 && kinds@[i as int] == q);
                }
            }
        }
        match k {
            PieceKind::Service => seen_serv = true,
            PieceKind::Characteristic => seen_chrc = true,
            PieceKind::Descriptor => seen_desc = true,
        }
        i = i + 1;
    }
    Some(plan)
}

/// The interfaces of the root object of an application, by name.
#[derive(Clone, Copy, Debug, PartialEq, Eq, Structural)]
pub enum AppMethod {
    Introspect,
    ObjectManager,
    /// Any other interface: the application does not serve it.
    Unknown,
}

/// The interface of the application's root object that a call on `interface` is for.
pub open spec fn app_method_of(interface: Seq<char>) -> AppMethod {
    if interface == INTRO_IF@ {
        AppMethod::Introspect
    } else if interface == OBJMGR_IF@ {
        AppMethod::ObjectManager
    } else {
        AppMethod::Unknown
    }
}

/// Finds the interface of the application's root object that a call is for.
pub fn app_method(interface: &str) -> (r: AppMethod)
    ensures
        r == app_method_of(interface@),
{
    if str_eq(interface, INTRO_IF) {
        AppMethod::Introspect
    } else if str_eq(interface, OBJMGR_IF) {
        AppMethod::ObjectManager
    } else {
        AppMethod::Unknown
    }
}

/// one.
#[derive(Clone, Copy, Debug, PartialEq, Eq, Structural)]
pub struct DestPlan {
    pub release: bool,
    pub request: bool,
}

/// Two optional names are the same.
pub open spec fn same_name(a: Option<String>, b: Option<String>) -> bool {
    match (a, b) {
        (Some(x), Some(y)) => x@ == y@,
        (None, None) => true,
        _ => false,
    }
}

/// What changing the held D-Bus name from `current` to `wanted` takes.
pub fn dest_plan(current: &Option<String>, wanted: &Option<String>) -> (r: DestPlan)
    ensures
        same_name(*current, *wanted) ==> !r.release && !r.request,
        !same_name(*current, *wanted) ==> r.release == (current is Some) && r.request == (
        wanted is Some),
{
    let same = match (current, wanted) {
        (Some(x), Some(y)) => str_eq(x.as_str(), y.as_str()),
        (None, None) => true,
        _ => false,
    };
    if same {
        return DestPlan { release: false, request: false };
    }
    DestPlan { release: current.is_some(), request: wanted.is_some() }
}

/// A call from `sender` is answered: every call is when there is no filter, else only those
/// from Bluez or from the name that the filter holds.
pub open spec fn msg_allowed(sender: Option<Seq<char>>, filter: Option<Seq<char>>) -> bool {
    match filter {
        None => true,
        Some(f) => match sender {
            Some(d) => d == BLUEZ_DEST@ || d == f,
            None => false,
        },
    }
}

/// Whether a call from `sender` is answered under `filter`.
pub fn is_msg_bluez(sender: Option<&str>, filter: Option<&str>) -> (r: bool)
    ensures
        r == msg_allowed(
            match sender {
                Some(s) => Some(s@),
                None => None,
            },
            match filter {
                Some(f) => Some(f@),
                None => None,
            },
        ),
{
    let self_dest = match filter {
        Some(d) => d,
        None => return true,
    };
    match sender {
        Some(d) => str_eq(d, BLUEZ_DEST) || str_eq(d, self_dest),
        None => false,
    }
}

/// The path of the adapter with the index `idx`.
pub open spec fn adapter_path_spec(idx: u8) -> Seq<char> {
    "/org/bluez/hci"@ + dec_fmt(idx as nat)
}

/// The path of the adapter with the index `idx`.
pub fn adapter_path(idx: u8) -> (r: String)
    ensures
        r@ == adapter_path_spec(idx),
{
    let mut s = "/org/bluez/hci".to_owned();
    push_dec(&mut s, idx);
    s
}

/// The path of the device `mac` under the adapter at `adapter`.
pub fn device_path(adapter: &ObjectPath, mac: &MAC) -> (r: String)
    ensures
        r@ == adapter@ + "/"@ + mac_dev_text(mac.parts().0, mac.parts().1),
{
    let mut s = adapter.as_str().to_owned();
    push_str(&mut s, "/");
    let d = mac.to_dev_str();
    push_str(&mut s, d.as_str());
    s
}

/// The path of the child `prefix` + `i` (four hexadecimal digits at least) of `parent`.
pub fn child_path(parent: &ObjectPath, prefix: &str, i: usize) -> (r: String)
    ensures
        r@ == parent@ + "/"@ + prefix@ + hex_fmt_min(i as nat, 4),
{
    let mut s = parent.as_str().to_owned();
    push_str(&mut s, "/");
    push_str(&mut s, prefix);
    push_hex_min(&mut s, i, 4);
    s
}

/// The index of the adapter whose path ends with `name`: `name` is `hci` followed by a
/// decimal `u8`.
pub open spec fn hci_index_spec(name: Seq<char>) -> Option<nat> {
    if crate::error::starts_with(name, "hci"@) {
        radix10_u8(vstd::utf8::encode_utf8(name).skip(3))
    } else {
        None
    }
}

/// The index of the adapter whose path ends with `name`.
pub fn hci_index(name: &str) -> (r: Option<u8>)
    ensures
        match r {
            Some(v) => hci_index_spec(name@) == Some(v as nat),
            None => hci_index_spec(name@) is None,
        },
{
    if !str_starts_with(name, "hci") {
        return None;
    }
    let b = name.as_bytes();
    proof {
        reveal_strlit("hci");
        lemma_prefix_bytes(name@, "hci"@);
    }
    parse_dec_u8(b, 3, b.len())
}

/// The encoding of a text that starts with an ASCII prefix starts with the prefix's bytes.
proof fn lemma_prefix_bytes(s: Seq<char>, p: Seq<char>)
    requires
        crate::error::starts_with(s, p),
        vstd::utf8::is_ascii_chars(p),
    ensures
        vstd::utf8::encode_utf8(s).len() >= p.len(),
    decreases p.len(),
{
    if p.len() > 0 {
        assert(s.len() > 0);
        assert(s.drop_first().take(p.len() - 1) =~= p.drop_first());
        assert(vstd::utf8::is_ascii_chars(p.drop_first()));
        lemma_prefix_bytes(s.drop_first(), p.drop_first());
        assert(vstd::utf8::encode_utf8(s) == vstd::utf8::encode_scalar(s[0] as u32) + vstd::utf8::encode_utf8(s.drop_first()));
    }
}

/// The value read from a remote characteristic or descriptor, from the bytes of the reply:
/// more than `MAX_CHAR_LEN` bytes are refused.
pub fn value_from_reply(value: &[u8]) -> (r: Result<AttValue, Error>)
    ensures
        value@.len() <= MAX_CHAR_LEN ==> (r matches Ok(v) && v@ == value@),
        value@.len() > MAX_CHAR_LEN ==> (r matches Err(Error::Bluez(m)) && m@
            == "AttValue received was too long!"@),
{
    if value.len() > MAX_CHAR_LEN {
        return Err(Error::Bluez("AttValue received was too long!".to_owned()));
    }
    Ok(AttValue::from_slice(value))
}

/// Whether a device is connected, from the value of its `Connected` property.
pub fn connected_reply(v: BluezOptions) -> (r: Result<bool, Error>)
    ensures
        match v {
            BluezOptions::Bool(b) => r matches Ok(x) && x == b,
            _ => (r matches Err(Error::Bluez(m)) && m@ == "Bluez returned unexpected type!"@),
        },
{
    match v {
        BluezOptions::Bool(b) => Ok(b),
        _ => Err(Error::Bluez("Bluez returned unexpected type!".to_owned())),
    }
}

/// How much of a value of `len` bytes goes through a write socket of MTU `mtu`.
pub fn write_len(len: usize, mtu: u16) -> (r: usize)
    ensures
        r == if len < mtu as usize {
            len
        } else {
            mtu as usize
        },
{
    if len < mtu as usize {
        len
    } else {
        mtu as usize
    }
}

/// A notification socket whose read gave no byte and whose peer hung up is closed.
pub fn socket_closed(read: usize, hung_up: bool) -> (r: bool)
    ensures
        r == (read == 0 && hung_up),
{
    read == 0 && hung_up
}

} // verus!
