//! Errors of the library.
use vstd::prelude::*;

use crate::mac::MAC;
use crate::strbuf::push_str;
use crate::uuid::UUID;

verus! {

#[verifier::external_type_specification]
#[verifier::external_body]
pub struct ExIoError(std::io::Error);

/// Why a textual UUID or MAC could not be read.
#[derive(Debug, PartialEq, Eq, Structural, Clone, Copy)]
pub enum IDParseError {
    InvalidLength,
    InvalidDelimiter,
    InvalidRadix,
}

/// Error for conversion where the input value is not within a valid range for the output type.
#[derive(Debug, PartialEq, Eq, Structural, Clone, Copy)]
pub struct OutOfRange;

/// Errors of talking to Bluez.
#[derive(Debug)]
pub enum Error {
    /// Bluez answered with an error, or with something the library cannot use.
    Bluez(String),
    /// D-Bus answered with an error, or a message could not be read.
    Dbus(String),
    ThreadClosed,
    SocketHungUp,
    ThreadPanicked,
    UnknownDevice(MAC),
    UnknownServ(UUID),
    UnknownChrc(UUID, UUID),
    UnknownDesc(UUID, UUID, UUID),
    Io(std::io::Error),
}

impl From<std::io::Error> for Error {
    /// An I/O error of the connection or of a socket.
    fn from(err: std::io::Error) -> (r: Error) {
        Error::Io(err)
    }
}

impl vstd::std_specs::convert::FromSpecImpl<std::io::Error> for Error {
    open spec fn obeys_from_spec() -> bool {
        true
    }

    open spec fn from_spec(err: std::io::Error) -> Error {
        Error::Io(err)
    }
}

/// The text `s` starts with `p`.
pub open spec fn starts_with(s: Seq<char>, p: Seq<char>) -> bool {
    p.len() <= s.len() && s.take(p.len() as int) == p
}

/// Whether `s` starts with `p`.
pub fn str_starts_with(s: &str, p: &str) -> (r: bool)
    ensures
        r == starts_with(s@, p@),
{
    let n = s.unicode_len();
    let m = p.unicode_len();
    if m > n {
        return false;
    }
    let mut i: usize = 0;
    while i < m
        invariant
            m <= n,
            n == s@.len(),
            m == p@.len(),
            i <= m,
            forall|j: int| 0 <= j < i ==> s@[j] == p@[j],
        decreases m - i,
    {
        if s.get_char(i) != p.get_char(i) {
            assert(s@.take(m as int)[i as int] != p@[i as int]);
            return false;
        }
        i = i + 1;
    }
    assert(s@.take(m as int) =~= p@);
    true
}

/// The error for the error message `err_msg` of an error reply: a Bluez error when the
/// name starts with `org.bluez`, else a D-Bus error.
pub fn error_reply(err_msg: String) -> (r: Error)
    ensures
        starts_with(err_msg@, "org.bluez"@) ==> (r matches Error::Bluez(m) && m@ == err_msg@),
        !starts_with(err_msg@, "org.bluez"@) ==> (r matches Error::Dbus(m) && m@ == err_msg@),
{
    if str_starts_with(err_msg.as_str(), "org.bluez") {
        Error::Bluez(err_msg)
    } else {
        Error::Dbus(err_msg)
    }
}

/// The error for a reply whose body could not be read (`detail` describes why).
pub fn reply_unreadable(detail: &str) -> (r: Error)
    ensures
        r matches Error::Dbus(m) && m@ == "Failed to unmarshal: "@ + detail@,
{
    let mut m = "Failed to unmarshal: ".to_owned();
    push_str(&mut m, detail);
    Error::Dbus(m)
}

/// The error for an error reply whose message could not be read (`detail` describes why).
pub fn error_unreadable(detail: &str) -> (r: Error)
    ensures
        r matches Error::Dbus(m) && m@ == "Failed to unmarshal msg_err: "@ + detail@,
{
    let mut m = "Failed to unmarshal msg_err: ".to_owned();
    push_str(&mut m, detail);
    Error::Dbus(m)
}

/// The outcome of asking D-Bus for a name, by the flag of the reply: 2 (in queue) and 3
/// (exists) mean that another connection has the name.
pub fn name_request_result(flag: u32) -> (r: Result<(), Error>)
    ensures
        (flag == 2 || flag == 3) ==> (r matches Err(Error::Dbus(m)) && m@ == "Name taken!"@),
        !(flag == 2 || flag == 3) ==> r is Ok,
{
    if flag == 2 || flag == 3 {
        return Err(Error::Dbus("Name taken!".to_owned()));
    }
    Ok(())
}

} // verus!
