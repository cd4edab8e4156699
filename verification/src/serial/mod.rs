//! The serial link to the micro:bit: the wire protocol, how it is framed on
//! the wire, and the connection's lifecycle as the UI shows it.

pub mod protocol;
pub mod wire;

use vstd::prelude::*;
use crate::text::{chars_of, spec_to_lowercase, to_lowercase};

verus! {

/// Lifecycle of the link to the micro:bit, as surfaced in the UI. The player
/// drives the transitions from responses and from the link closing.
#[derive(Debug, Clone, Copy, PartialEq, Eq, Structural)]
pub enum ConnectionState {
    /// No port was configured or none could be found.
    NoPort,
    /// Port is open; waiting for the first `Ready` from the device.
    Connecting,
    /// Handshake complete / idle.
    Ready,
    /// The device went away mid-session.
    Disconnected,
}

impl ConnectionState {
    /// The word the status bar shows for this state.
    pub open spec fn spec_label(self) -> Seq<char> {
        match self {
            ConnectionState::NoPort => "OFFLINE"@,
            ConnectionState::Connecting => "CONNECTING"@,
            ConnectionState::Ready => "READY"@,
            ConnectionState::Disconnected => "DISCONNECTED"@,
        }
    }

    /// The word the status bar shows for this state.
    pub fn label(self) -> (r: &'static str)
        ensures
            r@ == self.spec_label(),
    {
        match self {
            ConnectionState::NoPort => "OFFLINE",
            ConnectionState::Connecting => "CONNECTING",
            ConnectionState::Ready => "READY",
            ConnectionState::Disconnected => "DISCONNECTED",
        }
    }
}

/// `sub` occurs in `s`.
pub open spec fn contains(s: Seq<char>, sub: Seq<char>) -> bool {
    exists|i: int| 0 <= i && i + sub.len() <= s.len() && #[trigger] s.subrange(i, i + sub.len()) == sub
}

/// A port name that looks like a micro:bit's USB serial device: its lowercase
/// form mentions `ttyacm`, `usbmodem` or `ttyusb`.
pub open spec fn looks_like_microbit(name: Seq<char>) -> bool {
    let l = spec_to_lowercase(name);
    contains(l, "ttyacm"@) || contains(l, "usbmodem"@) || contains(l, "ttyusb"@)
}

/// `i` is the first port in `names` that looks like a micro:bit.
pub open spec fn is_first_microbit(names: Seq<String>, i: int) -> bool {
    &&& 0 <= i < names.len()
    &&& looks_like_microbit(names[i]@)
    &&& forall|j: int| 0 <= j < i ==> !looks_like_microbit(#[trigger] names[j]@)
}

/// Whether `needle` occurs in `hay`.
fn occurs(hay: &Vec<char>, needle: &Vec<char>) -> (r: bool)
    ensures
        r == contains(hay@, needle@),
{
    let n = needle.len();
    if n > hay.len() {
        return false;
    }
    let hl = hay.len();
    let last = hl - n;
    let mut i: usize = 0;
    while i <= last
        invariant
            hl == hay@.len(),
            n == needle@.len(),
            last + n == hay@.len(),
            forall|k: int| 0 <= k < i ==> #[trigger] hay@.subrange(k, k + n) != needle@,
        decreases last + 1 - i,
    {
        let mut j: usize = 0;
        while j < n && hay[i + j] == needle[j]
            invariant
                hl == hay@.len(),
                n == needle@.len(),
                last + n == hay@.len(),
                i <= last,
                j <= n,
                forall|m: int| 0 <= m < j ==> hay@[i + m] == needle@[m],
            decreases n - j,
        {
            j = j + 1;
        }
        if j == n {
            assert(hay@.subrange(i as int, i + n) == needle@);
            return true;
        }
        assert(hay@.subrange(i as int, i + n)[j as int] != needle@[j as int]);
        if i == last {
            assert forall|k: int| 0 <= k && k + n <= hay@.len() implies #[trigger] hay@.subrange(
                k,
                k + n,
            ) != needle@ by {
                assert(k <= i);
            }
            return false;
        }
        i = i + 1;
    }
    false
}

/// Whether a port name looks like a micro:bit's USB serial device.
pub fn is_microbit_port(name: &String) -> (r: bool)
    ensures
        r == looks_like_microbit(name@),
{
    let lower = to_lowercase(name.as_str());
    let l = chars_of(lower.as_str());
    occurs(&l, &chars_of("ttyacm")) || occurs(&l, &chars_of("usbmodem")) || occurs(
        &l,
        &chars_of("ttyusb"),
    )
}

/// Best guess at the micro:bit's port among the port names the OS reports:
/// the first USB/ACM-style device, falling back to the first port of any kind.
pub fn autodetect_from(names: &Vec<String>) -> (r: Option<String>)
    ensures
        names@.len() == 0 ==> r is None,
        names@.len() > 0 ==> (r matches Some(n) && if exists|i: int|
            is_first_microbit(names@, i) {
            n@ == names@[choose|i: int| is_first_microbit(names@, i)]@
        } else {
            n@ == names@[0]@
        }),
{
    let mut i: usize = 0;
    while i < names.len()
        invariant
            i <= names@.len(),
            forall|j: int| 0 <= j < i ==> !looks_like_microbit(#[trigger] names@[j]@),
        decreases names@.len() - i,
    {
        if is_microbit_port(&names[i]) {
            assert(is_first_microbit(names@, i as int));
            assert forall|j: int| is_first_microbit(names@, j) implies j == i by {
                if j < i {
                    assert(!looks_like_microbit(names@[j]@));
                } else if j > i {
                    assert(looks_like_microbit(names@[i as int]@));
                }
            }
            return Some(names[i].clone());
        }
        i = i + 1;
    }
    assert forall|j: int| !is_first_microbit(names@, j) by {
        if 0 <= j < names@.len() {
            assert(!looks_like_microbit(names@[j]@));
        }
    }
    if names.len() > 0 {
        Some(names[0].clone())
    } else {
        None
    }
}

} // verus!
pub mod reader;
