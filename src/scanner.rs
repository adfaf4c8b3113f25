//! The decisions of the UDP discovery scan: the probe datagram, the device
//! name in a reply, and when the sequence of replies ends. The socket is the
//! caller's: it sends the probe, receives, and hands each outcome over.
use vstd::prelude::*;
use vstd::slice::{slice_subrange, slice_to_vec};
use vstd::utf8::{decode_utf8, valid_utf8};

use crate::error::{Error, Fault};
use crate::text::utf8_text;

verus! {

/// The local port that the scan listens on.
pub const LOCAL_PORT: u16 = 18001;

/// The port of the multicast group that the probe goes to.
pub const GROUP_PORT: u16 = 19000;

/// The length of the name field at the start of a reply.
pub const NAME_FIELD_LEN: usize = 128;

/// The largest reply datagram.
pub const MAX_REPLY_LEN: usize = 512;

/// The probe datagram, kept byte for byte as devices have been seen to
/// answer it.
pub open spec fn probe_bytes() -> Seq<u8> {
    seq![0xC0u8, 0xA8u8, 0x01u8, 0x0Cu8, 0x46u8, 0x51u8, 0x00u8, 0x00u8]
}

pub fn probe() -> (r: Vec<u8>)
    ensures
        r@ == probe_bytes(),
{
    let r: Vec<u8> = vec![0xC0, 0xA8, 0x01, 0x0C, 0x46, 0x51, 0x00, 0x00];
    assert(r@ =~= probe_bytes());
    r
}

/// The position of the first zero byte of `b` (meaningful when there is one).
pub open spec fn first_zero(b: Seq<u8>) -> int {
    choose|k: int| 0 <= k < b.len() && b[k] == 0 && forall|j: int| 0 <= j < k ==> b[j] != 0
}

/// The name field of a reply: its first bytes, up to the first zero byte
/// or to the end of the field.
pub open spec fn name_field(d: Seq<u8>) -> Seq<u8> {
    let f = d.take(NAME_FIELD_LEN as int);
    if f.contains(0) {
        f.take(first_zero(f))
    } else {
        f
    }
}

/// The device name that reply `d` carries.
pub open spec fn name_of(d: Seq<u8>) -> Result<Seq<char>, Fault> {
    if d.len() < NAME_FIELD_LEN {
        Err(Fault::ShortDatagram(d.len()))
    } else if valid_utf8(name_field(d)) {
        Ok(decode_utf8(name_field(d)))
    } else {
        Err(Fault::InvalidUtf8(name_field(d)))
    }
}

/// The device name that a reply datagram carries.
pub fn machine_name(d: &[u8]) -> (r: Result<String, Error>)
    ensures
        match (r, name_of(d@)) {
            (Ok(a), Ok(b)) => a@ == b,
            (Err(e), Err(f)) => e@ == f,
            _ => false,
        },
{
    if d.len() < NAME_FIELD_LEN {
        return Err(Error::ShortDatagram(d.len()));
    }
    let field = slice_subrange(d, 0, NAME_FIELD_LEN);
    assert(field@ == d@.take(NAME_FIELD_LEN as int));
    let mut end: usize = 0;
    while end < NAME_FIELD_LEN && field[end] != 0
        invariant
            field@.len() == NAME_FIELD_LEN,
            end <= NAME_FIELD_LEN,
            forall|j: int| 0 <= j < end ==> field@[j] != 0,
        decreases NAME_FIELD_LEN - end,
    {
        end = end + 1;
    }
    proof {
        if field@.contains(0) {
            let f = first_zero(field@);
            assert(0 <= f < field@.len() && field@[f] == 0);
            assert(end < NAME_FIELD_LEN);
            if f < end {
                assert(field@[f] != 0);
            } else if end < f {
                assert(field@[end as int] != 0);
            }
            assert(name_field(d@) == field@.take(end as int));
        } else {
            if end < NAME_FIELD_LEN {
                assert(field@.contains(0));
            }
            assert(field@.take(end as int) =~= field@);
        }
    }
    let name = slice_subrange(field, 0, end);
    match utf8_text(slice_to_vec(name)) {
        Some(s) => Ok(s),
        None => Err(Error::InvalidUtf8(slice_to_vec(name))),
    }
}

/// What a receive on the scan socket came to.
pub enum Received {
    /// A reply datagram arrived.
    Datagram(Vec<u8>),
    /// The timeout passed, or the socket would block.
    TimedOut,
    /// Any other failure.
    Failed,
}

/// The next element of the scan.
pub enum Next {
    /// A device replied; its name, or why it could not be read.
    Device(Result<String, Error>),
    /// The receive failed: the caller surfaces its error, and the scan is over.
    Failure,
    /// The scan is over.
    End,
}

/// A scan in progress: it ends at the first timeout or at the first failure.
pub struct Discovery {
    over: bool,
}

impl View for Discovery {
    type V = bool;

    /// Whether the scan is over.
    closed spec fn view(&self) -> bool {
        self.over
    }
}

impl Discovery {
    /// A scan whose probe has been sent.
    pub fn new() -> (r: Discovery)
        ensures
            !r@,
    {
        Discovery { over: false }
    }

    /// Whether the scan is over: the caller receives nothing more.
    pub fn is_over(&self) -> (r: bool)
        ensures
            r == self@,
    {
        self.over
    }

    /// Takes the outcome of one receive and gives the next element.
    pub fn step(&mut self, received: Received) -> (r: Next)
        requires
            !old(self)@,
        ensures
            match received {
                Received::Datagram(d) => !final(self)@ && (r matches Next::Device(n) && match (
                    n,
                    name_of(d@),
                ) {
                    (Ok(a), Ok(b)) => a@ == b,
                    (Err(e), Err(f)) => e@ == f,
                    _ => false,
                }),
                Received::TimedOut => final(self)@ && r is End,
                Received::Failed => final(self)@ && r is Failure,
            },
    {
        match received {
            Received::Datagram(d) => Next::Device(machine_name(d.as_slice())),
            Received::TimedOut => {
                self.over = true;
                Next::End
            },
            Received::Failed => {
                self.over = true;
                Next::Failure
            },
        }
    }
}

} // verus!
