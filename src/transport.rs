//! The framing of one command exchange on the TCP connection: the request
//! line, the acknowledgement that must echo it, and the reply lines up to
//! the `ok\r\n` sentinel. The connection itself is the caller's: it sends
//! the request, reads lines, and hands each one to an [`Exchange`].
use vstd::prelude::*;
use vstd::string::StringSliceAdditionalSpecFns;
use vstd::utf8::{decode_utf8, valid_utf8};

use crate::error::{Error, ErrorKind, Fault};
use crate::text::utf8_text;

verus! {

/// `~`, which starts every request.
pub const TILDE: u8 = 0x7E;

pub const SPACE: u8 = 0x20;

/// Carriage return, `\r`.
pub const CR: u8 = 0x0D;

/// Line feed, `\n`, which ends every line.
pub const LF: u8 = 0x0A;

/// The request line `~<cmd>[ <args>]\r\n`, over the UTF-8 bytes of the
/// command and of its arguments.
pub open spec fn frame_of(cmd: Seq<u8>, args: Seq<u8>) -> Seq<u8> {
    seq![TILDE] + cmd + (if args.len() > 0 {
        seq![SPACE] + args
    } else {
        Seq::empty()
    }) + seq![CR, LF]
}

/// The acknowledgement line `CMD <cmd> Received.\r\n`.
pub open spec fn echo_of(cmd: Seq<u8>) -> Seq<u8> {
    "CMD ".spec_bytes() + cmd + " Received.\r\n".spec_bytes()
}

/// The four bytes `ok\r\n` that end every reply.
pub open spec fn sentinel() -> Seq<u8> {
    seq![0x6Fu8, 0x6Bu8, CR, LF]
}

pub open spec fn ends_with_sentinel(b: Seq<u8>) -> bool {
    b.len() >= 4 && b.skip(b.len() - 4) == sentinel()
}

/// A line as a line reader returns it when the stream did not end first.
pub open spec fn is_full_line(l: Seq<u8>) -> bool {
    l.len() > 0 && l.last() == LF
}

/// The text of a reply payload.
pub open spec fn reply_text(payload: Seq<u8>) -> Result<Seq<char>, Fault> {
    if valid_utf8(payload) {
        Ok(decode_utf8(payload))
    } else {
        Err(Fault::InvalidUtf8(payload))
    }
}

/// Appends the bytes of `b` to `out`.
fn append(out: &mut Vec<u8>, b: &[u8])
    ensures
        final(out)@ == old(out)@ + b@,
{
    let mut i: usize = 0;
    while i < b.len()
        invariant
            i <= b@.len(),
            out@ == old(out)@ + b@.take(i as int),
        decreases b@.len() - i,
    {
        out.push(b[i]);
        assert(b@.take(i + 1) =~= b@.take(i as int).push(b@[i as int]));
        i = i + 1;
    }
    assert(b@.take(i as int) =~= b@);
}

/// The request line of command `cmd` with arguments `args` (none if empty).
pub fn request_frame(cmd: &str, args: &str) -> (r: Vec<u8>)
    ensures
        r@ == frame_of(cmd.spec_bytes(), args.spec_bytes()),
{
    let mut out: Vec<u8> = Vec::new();
    out.push(TILDE);
    append(&mut out, cmd.as_bytes());
    let a = args.as_bytes();
    if a.len() > 0 {
        out.push(SPACE);
        append(&mut out, a);
    }
    out.push(CR);
    out.push(LF);
    assert(out@ =~= frame_of(cmd.spec_bytes(), args.spec_bytes()));
    out
}

/// The acknowledgement line that command `cmd` must receive.
pub fn expected_echo(cmd: &str) -> (r: Vec<u8>)
    ensures
        r@ == echo_of(cmd.spec_bytes()),
{
    let mut out: Vec<u8> = Vec::new();
    append(&mut out, "CMD ".as_bytes());
    append(&mut out, cmd.as_bytes());
    append(&mut out, " Received.\r\n".as_bytes());
    out
}

/// Where an exchange stands.
#[derive(Clone, Copy, Debug, PartialEq, Eq, Structural)]
pub enum Stage {
    /// The request is sent; the acknowledgement is awaited.
    AwaitingEcho,
    /// The acknowledgement came; reply lines are collected.
    Collecting,
    /// The exchange is over, with a reply or a failure.
    Done,
}

/// The model of an [`Exchange`].
pub struct ExchangeState {
    /// The acknowledgement line that the command calls for.
    pub echo: Seq<u8>,
    pub stage: Stage,
    /// The reply lines received after the acknowledgement.
    pub received: Seq<u8>,
}

/// What a line reader produced: a line (with its `\n`, or without it where the
/// stream ended first, then possibly empty), or a failure after some bytes.
pub enum Event {
    Line(Vec<u8>),
    Failed(Vec<u8>),
}

impl Event {
    pub open spec fn bytes(self) -> Seq<u8> {
        match self {
            Event::Line(b) => b@,
            Event::Failed(b) => b@,
        }
    }

    pub open spec fn failed(self) -> bool {
        self is Failed
    }
}

/// What the caller does next.
pub enum Step {
    /// Read one more line and hand it over.
    ReadLine,
    /// The exchange is over: the text of the reply, or why there is none.
    Finished(Result<String, Error>),
}

impl Step {
    /// `None` for another line; else the reply text or the failure.
    pub open spec fn outcome(self) -> Option<Result<Seq<char>, Fault>> {
        match self {
            Step::ReadLine => None,
            Step::Finished(Ok(s)) => Some(Ok(s@)),
            Step::Finished(Err(e)) => Some(Err(e@)),
        }
    }
}

/// The next state of an exchange in state `st`, and its outcome, when the
/// line reader produced `line` (and failed, if `failed`).
pub open spec fn on_event(st: ExchangeState, line: Seq<u8>, failed: bool) -> (
    ExchangeState,
    Option<Result<Seq<char>, Fault>>,
) {
    let done = ExchangeState { stage: Stage::Done, ..st };
    match st.stage {
        Stage::AwaitingEcho => if !failed && line == st.echo {
            (ExchangeState { stage: Stage::Collecting, received: Seq::empty(), ..st }, None)
        } else {
            (done, Some(Err(Fault::UnexpectedEcho(line))))
        },
        Stage::Collecting => if failed || !is_full_line(line) {
            (done, Some(Err(Fault::ConnectionLost)))
        } else {
            let received = st.received + line;
            if ends_with_sentinel(received) {
                (
                    ExchangeState { stage: Stage::Done, received, ..st },
                    Some(reply_text(received.take(received.len() - 4))),
                )
            } else {
                (ExchangeState { received, ..st }, None)
            }
        },
        Stage::Done => (st, None),
    }
}

/// One command exchange, from the sent request to the end of its reply.
pub struct Exchange {
    echo: Vec<u8>,
    stage: Stage,
    received: Vec<u8>,
}

impl View for Exchange {
    type V = ExchangeState;

    closed spec fn view(&self) -> ExchangeState {
        ExchangeState { echo: self.echo@, stage: self.stage, received: self.received@ }
    }
}

impl Exchange {
    /// An exchange of command `cmd`, whose request has been sent.
    pub fn new(cmd: &str) -> (r: Exchange)
        ensures
            r@.echo == echo_of(cmd.spec_bytes()),
            r@.stage == Stage::AwaitingEcho,
            r@.received == Seq::<u8>::empty(),
    {
        Exchange { echo: expected_echo(cmd), stage: Stage::AwaitingEcho, received: Vec::new() }
    }

    /// Whether the exchange is over.
    pub fn is_done(&self) -> (r: bool)
        ensures
            r == (self@.stage == Stage::Done),
    {
        self.stage == Stage::Done
    }

    /// Takes what the line reader produced and says what comes next.
    pub fn step(&mut self, event: Event) -> (r: Step)
        requires
            old(self)@.stage != Stage::Done,
        ensures
            (final(self)@, r.outcome()) == on_event(old(self)@, event.bytes(), event.failed()),
    {
        let ghost before = self@;
        let (line, failed) = match event {
            Event::Line(b) => (b, false),
            Event::Failed(b) => (b, true),
        };
        if self.stage == Stage::AwaitingEcho {
            if !failed && same_bytes(&line, &self.echo) {
                self.stage = Stage::Collecting;
                self.received = Vec::new();
                return Step::ReadLine;
            }
            self.stage = Stage::Done;
            return Step::Finished(Err(Error::UnexpectedEcho(line)));
        }
        let n = line.len();
        if failed || n == 0 || line[n - 1] != LF {
            self.stage = Stage::Done;
            return Step::Finished(Err(Error::ConnectionLost));
        }
        append(&mut self.received, line.as_slice());
        let m = self.received.len();
        if m >= 4 && self.received[m - 4] == 0x6F && self.received[m - 3] == 0x6B
            && self.received[m - 2] == CR && self.received[m - 1] == LF {
            assert(self.received@.skip(m - 4) =~= sentinel());
            self.stage = Stage::Done;
            let mut payload: Vec<u8> = Vec::new();
            append(&mut payload, vstd::slice::slice_subrange(self.received.as_slice(), 0, m - 4));
            assert(payload@ =~= self.received@.take(m - 4));
            let kept = vstd::slice::slice_to_vec(payload.as_slice());
            match utf8_text(payload) {
                Some(s) => Step::Finished(Ok(s)),
                None => Step::Finished(Err(Error::InvalidUtf8(kept))),
            }
        } else {
            proof {
                if ends_with_sentinel(self.received@) {
                    assert(self.received@[m - 4] == sentinel()[0]);
                    assert(self.received@[m - 3] == sentinel()[1]);
                    assert(self.received@[m - 2] == sentinel()[2]);
                    assert(self.received@[m - 1] == sentinel()[3]);
                }
            }
            Step::ReadLine
        }
    }
}

/// Whether `a` and `b` hold the same bytes.
fn same_bytes(a: &Vec<u8>, b: &Vec<u8>) -> (r: bool)
    ensures
        r == (a@ == b@),
{
    if a.len() != b.len() {
        return false;
    }
    let mut i: usize = 0;
    while i < a.len()
        invariant
            a@.len() == b@.len(),
            i <= a@.len(),
            forall|k: int| 0 <= k < i ==> a@[k] == b@[k],
        decreases a@.len() - i,
    {
        if a[i] != b[i] {
            return false;
        }
        i = i + 1;
    }
    assert(a@ =~= b@);
    true
}

/// An acknowledgement that differs from the one the command calls for ends
/// the exchange with a protocol error that carries the received bytes, and
/// with no reply text.
pub proof fn lemma_wrong_echo_fails(st: ExchangeState, line: Seq<u8>, failed: bool)
    requires
        st.stage == Stage::AwaitingEcho,
        line != st.echo,
    ensures
        on_event(st, line, failed).0.stage == Stage::Done,
        on_event(st, line, failed).1 == Some(Err::<Seq<char>, Fault>(Fault::UnexpectedEcho(line))),
        Fault::UnexpectedEcho(line).kind() == ErrorKind::Protocol,
{
}

} // verus!
