//! The text replies of the status, temperature, progress and control
//! commands, and the check of a new machine name.
use vstd::prelude::*;

use crate::error::{Error, Fault};
use crate::text::{
    decimal_upto, first_three, lines, parse_decimal, split_lines, split_once, split_once_at,
    split_words, strip_prefix, views, words,
};

verus! {

/// One value for each axis.
#[derive(Clone, Copy, Debug, PartialEq, Eq)]
pub struct V3<T> {
    pub x: T,
    pub y: T,
    pub z: T,
}

/// The reply of the status command.
#[derive(Clone, Debug, PartialEq, Eq)]
pub struct Status {
    /// Whether each axis stands at its limit switch.
    pub endstop: V3<bool>,
    /// The machine state, such as `READY`, `MOVING` or `BUILDING_FROM_SD`.
    pub status: String,
    /// The state of the print head.
    pub movemode: String,
    /// What the device reports of its light; devices have been seen to report
    /// the same value whatever the light does.
    pub led: bool,
    /// The file being printed.
    pub file: String,
}

/// The model of a [`Status`].
pub struct StatusView {
    pub endstop: V3<bool>,
    pub status: Seq<char>,
    pub movemode: Seq<char>,
    pub led: bool,
    pub file: Seq<char>,
}

impl View for Status {
    type V = StatusView;

    open spec fn view(&self) -> StatusView {
        StatusView {
            endstop: self.endstop,
            status: self.status@,
            movemode: self.movemode@,
            led: self.led,
            file: self.file@,
        }
    }
}

/// A temperature reading in degrees Celsius.
#[derive(Clone, Copy, Debug, PartialEq, Eq, Structural)]
pub struct Temperature {
    pub current: u16,
    pub target: u16,
}

/// The readings of the temperature command; a channel that the device does
/// not report is `None`.
#[derive(Clone, Copy, Debug, PartialEq, Eq, Structural)]
pub struct Temperatures {
    pub nozzle: Option<Temperature>,
    pub bed: Option<Temperature>,
}

/// The rest of `l` after `prefix`, if `l` starts with it.
pub open spec fn after(l: Seq<char>, prefix: Seq<char>) -> Option<Seq<char>> {
    if prefix.is_prefix_of(l) {
        Some(l.skip(prefix.len() as int))
    } else {
        None
    }
}

/// A flag written as a decimal byte: any value but zero is set.
pub open spec fn flag(text: Seq<char>) -> Result<bool, Fault> {
    match decimal_upto(text, 255) {
        Some(v) => Ok(v > 0),
        None => Err(Fault::BadNumber(text)),
    }
}

/// The flag of one endstop token `<label><value>` of the endstop line `line`.
pub open spec fn endstop_flag(token: Seq<char>, label: Seq<char>, line: Seq<char>) -> Result<
    bool,
    Fault,
> {
    match after(token, label) {
        Some(v) => flag(v),
        None => Err(Fault::BadLine(0, line)),
    }
}

/// The endstops reported by the first line of a status reply; only its first
/// three words are read.
pub open spec fn endstops_of(line: Seq<char>) -> Result<V3<bool>, Fault> {
    match after(line, "Endstop: "@) {
        None => Err(Fault::BadLine(0, line)),
        Some(rest) => {
            let ws = words(rest);
            if ws.len() < 3 {
                Err(Fault::BadLine(0, line))
            } else {
                match endstop_flag(ws[0], "X-max:"@, line) {
                    Err(e) => Err(e),
                    Ok(x) => match endstop_flag(ws[1], "Y-max:"@, line) {
                        Err(e) => Err(e),
                        Ok(y) => match endstop_flag(ws[2], "Z-max:"@, line) {
                            Err(e) => Err(e),
                            Ok(z) => Ok(V3 { x, y, z }),
                        },
                    },
                }
            }
        },
    }
}

/// The text after `prefix` on line `k` of `ls`.
pub open spec fn field(ls: Seq<Seq<char>>, k: nat, prefix: Seq<char>) -> Result<Seq<char>, Fault> {
    if ls.len() <= k {
        Err(Fault::MissingLine(k))
    } else {
        match after(ls[k as int], prefix) {
            Some(v) => Ok(v),
            None => Err(Fault::BadLine(k, ls[k as int])),
        }
    }
}

/// The status that the lines `ls` of a status reply report: each field
/// stands on a fixed line under a fixed label (line 3 is not read), and the
/// lines are checked in order.
pub open spec fn status_of(ls: Seq<Seq<char>>) -> Result<StatusView, Fault> {
    if ls.len() == 0 {
        Err(Fault::MissingLine(0))
    } else {
        match endstops_of(ls[0]) {
            Err(e) => Err(e),
            Ok(endstop) => match field(ls, 1, "MachineStatus: "@) {
                Err(e) => Err(e),
                Ok(status) => match field(ls, 2, "MoveMode: "@) {
                    Err(e) => Err(e),
                    Ok(movemode) => match field(ls, 4, "LED: "@) {
                        Err(e) => Err(e),
                        Ok(l) => match flag(l) {
                            Err(e) => Err(e),
                            Ok(led) => match field(ls, 5, "CurrentFile: "@) {
                                Err(e) => Err(e),
                                Ok(file) => Ok(StatusView { endstop, status, movemode, led, file }),
                            },
                        },
                    },
                },
            },
        }
    }
}

/// The reading written `<current>/<target>`, with `token` the whole token
/// for the error.
pub open spec fn pair(rest: Seq<char>, token: Seq<char>) -> Result<Temperature, Fault> {
    match split_once(rest, '/') {
        Some((current, target)) if !target.contains('/') => match decimal_upto(current, 65535) {
            None => Err(Fault::BadNumber(current)),
            Some(c) => match decimal_upto(target, 65535) {
                None => Err(Fault::BadNumber(target)),
                Some(t) => Ok(Temperature { current: c as u16, target: t as u16 }),
            },
        },
        _ => Err(Fault::BadToken(token)),
    }
}

/// The channel name and the reading of one token `<channel>:<current>/<target>`,
/// which holds exactly one `:` and after it exactly one `/`.
#[verifier::opaque]
pub open spec fn reading(token: Seq<char>) -> Result<(Seq<char>, Temperature), Fault> {
    match split_once(token, ':') {
        Some((key, rest)) if !rest.contains(':') => match pair(rest, token) {
            Ok(t) => Ok((key, t)),
            Err(e) => Err(e),
        },
        _ => Err(Fault::BadToken(token)),
    }
}

/// The readings of the tokens `ts`, read in order: the channel `T0` is the
/// nozzle, `B` the bed, a later reading of a channel replaces an earlier one,
/// and other channels are passed over.
pub open spec fn readings_of(ts: Seq<Seq<char>>) -> Result<Temperatures, Fault>
    decreases ts.len(),
{
    if ts.len() == 0 {
        Ok(Temperatures { nozzle: None, bed: None })
    } else {
        match readings_of(ts.drop_last()) {
            Err(e) => Err(e),
            Ok(t) => match reading(ts.last()) {
                Err(e) => Err(e),
                Ok((key, r)) => if key == seq!['T', '0'] {
                    Ok(Temperatures { nozzle: Some(r), ..t })
                } else if key == seq!['B'] {
                    Ok(Temperatures { bed: Some(r), ..t })
                } else {
                    Ok(t)
                },
            },
        }
    }
}

/// Whether a result is the one a model gives, on values that the model
/// holds as they are.
pub open spec fn same<T>(r: Result<T, Error>, s: Result<T, Fault>) -> bool {
    match (r, s) {
        (Ok(a), Ok(b)) => a == b,
        (Err(e), Err(f)) => e@ == f,
        _ => false,
    }
}

/// The flag written in `text`.
fn parse_flag(text: &str) -> (r: Result<bool, Error>)
    ensures
        same(r, flag(text@)),
{
    match parse_decimal(text, 255) {
        Some(v) => Ok(v > 0),
        None => Err(Error::BadNumber(text.to_owned())),
    }
}

/// The text after `prefix` on line `k` of `ls`.
fn line_field(ls: &Vec<String>, k: usize, prefix: &str) -> (r: Result<String, Error>)
    ensures
        match (r, field(views(ls@), k as nat, prefix@)) {
            (Ok(a), Ok(b)) => a@ == b,
            (Err(e), Err(f)) => e@ == f,
            _ => false,
        },
{
    if k >= ls.len() {
        return Err(Error::MissingLine(k));
    }
    let line = ls[k].as_str();
    assert(views(ls@)[k as int] == line@);
    match strip_prefix(line, prefix) {
        Some(rest) => Ok(rest.to_owned()),
        None => Err(Error::BadLine(k, line.to_owned())),
    }
}

/// The flag of one endstop token.
fn parse_endstop(token: &str, label: &str, line: &str) -> (r: Result<bool, Error>)
    ensures
        same(r, endstop_flag(token@, label@, line@)),
{
    match strip_prefix(token, label) {
        Some(v) => parse_flag(v),
        None => Err(Error::BadLine(0, line.to_owned())),
    }
}

/// The endstops reported by the first line of a status reply.
fn parse_endstops(line: &str) -> (r: Result<V3<bool>, Error>)
    ensures
        same(r, endstops_of(line@)),
{
    let rest = match strip_prefix(line, "Endstop: ") {
        Some(rest) => rest,
        None => return Err(Error::BadLine(0, line.to_owned())),
    };
    let ws = split_words(rest);
    assert(views(ws@).len() == ws@.len());
    let (x, y, z) = match first_three(ws) {
        Some(t) => t,
        None => return Err(Error::BadLine(0, line.to_owned())),
    };
    let x = match parse_endstop(x.as_str(), "X-max:", line) {
        Ok(v) => v,
        Err(e) => return Err(e),
    };
    let y = match parse_endstop(y.as_str(), "Y-max:", line) {
        Ok(v) => v,
        Err(e) => return Err(e),
    };
    let z = match parse_endstop(z.as_str(), "Z-max:", line) {
        Ok(v) => v,
        Err(e) => return Err(e),
    };
    Ok(V3 { x, y, z })
}

impl Status {
    /// Reads the reply of the status command.
    pub fn parse(text: &str) -> (r: Result<Status, Error>)
        ensures
            match (r, status_of(lines(text@))) {
                (Ok(a), Ok(b)) => a@ == b,
                (Err(e), Err(f)) => e@ == f,
                _ => false,
            },
    {
        let ls = split_lines(text);
        let ghost model = views(ls@);
        if ls.len() == 0 {
            return Err(Error::MissingLine(0));
        }
        let endstop = match parse_endstops(ls[0].as_str()) {
            Ok(v) => v,
            Err(e) => return Err(e),
        };
        let status = match line_field(&ls, 1, "MachineStatus: ") {
            Ok(v) => v,
            Err(e) => return Err(e),
        };
        let movemode = match line_field(&ls, 2, "MoveMode: ") {
            Ok(v) => v,
            Err(e) => return Err(e),
        };
        let led_text = match line_field(&ls, 4, "LED: ") {
            Ok(v) => v,
            Err(e) => return Err(e),
        };
        let led = match parse_flag(led_text.as_str()) {
            Ok(v) => v,
            Err(e) => return Err(e),
        };
        let file = match line_field(&ls, 5, "CurrentFile: ") {
            Ok(v) => v,
            Err(e) => return Err(e),
        };
        Ok(Status { endstop, status, movemode, led, file })
    }
}

/// The reading written `<current>/<target>` in `rest`.
fn parse_pair(rest: &str, token: &str) -> (r: Result<Temperature, Error>)
    ensures
        same(r, pair(rest@, token@)),
{
    let (current, target) = match split_once_at(rest, '/') {
        Some(p) => p,
        None => return Err(Error::BadToken(token.to_owned())),
    };
    if split_once_at(target, '/').is_some() {
        return Err(Error::BadToken(token.to_owned()));
    }
    let c = match parse_decimal(current, 65535) {
        Some(v) => v,
        None => return Err(Error::BadNumber(current.to_owned())),
    };
    let t = match parse_decimal(target, 65535) {
        Some(v) => v,
        None => return Err(Error::BadNumber(target.to_owned())),
    };
    Ok(Temperature { current: c as u16, target: t as u16 })
}

/// The reading of one token of a temperature reply.
fn parse_reading(token: &str) -> (r: Result<(String, Temperature), Error>)
    ensures
        match (r, reading(token@)) {
            (Ok((k, t)), Ok((sk, st))) => k@ == sk && t == st,
            (Err(e), Err(f)) => e@ == f,
            _ => false,
        },
{
    reveal(reading);
    let (key, rest) = match split_once_at(token, ':') {
        Some(p) => p,
        None => return Err(Error::BadToken(token.to_owned())),
    };
    if split_once_at(rest, ':').is_some() {
        return Err(Error::BadToken(token.to_owned()));
    }
    match parse_pair(rest, token) {
        Ok(t) => Ok((key.to_owned(), t)),
        Err(e) => Err(e),
    }
}

/// Whether `s` is exactly `c0` followed by `c1`, or `c0` alone when `c1` is `None`.
fn is_key(s: &str, c0: char, c1: Option<char>) -> (r: bool)
    ensures
        r == (match c1 {
            Some(c) => s@ == seq![c0, c],
            None => s@ == seq![c0],
        }),
{
    let n = s.unicode_len();
    let r = match c1 {
        Some(c) => n == 2 && s.get_char(0) == c0 && s.get_char(1) == c,
        None => n == 1 && s.get_char(0) == c0,
    };
    proof {
        if r {
            match c1 {
                Some(c) => assert(s@ =~= seq![c0, c]),
                None => assert(s@ =~= seq![c0]),
            }
        }
    }
    r
}

impl Temperatures {
    /// Reads the reply of the temperature command: whitespace-separated
    /// tokens `<channel>:<current>/<target>`.
    pub fn parse(text: &str) -> (r: Result<Temperatures, Error>)
        ensures
            same(r, readings_of(words(text@))),
    {
        let tokens = split_words(text);
        let ghost ts = views(tokens@);
        let mut readings = Temperatures { nozzle: None, bed: None };
        let mut i: usize = 0;
        while i < tokens.len()
            invariant
                ts == views(tokens@),
                ts == words(text@),
                i <= tokens@.len(),
                readings_of(ts.take(i as int)) == Ok::<Temperatures, Fault>(readings),
            decreases tokens@.len() - i,
        {
            assert(ts.take(i + 1).drop_last() =~= ts.take(i as int));
            assert(ts[i as int] == tokens@[i as int]@);
            let (key, r) = match parse_reading(tokens[i].as_str()) {
                Ok(p) => p,
                Err(e) => {
                    proof { lemma_readings_stop(ts, i + 1); }
                    return Err(e);
                },
            };
            if is_key(key.as_str(), 'T', Some('0')) {
                readings = Temperatures { nozzle: Some(r), ..readings };
            } else if is_key(key.as_str(), 'B', None) {
                readings = Temperatures { bed: Some(r), ..readings };
            }
            i = i + 1;
        }
        assert(ts.take(i as int) =~= ts);
        Ok(readings)
    }
}

/// Once the readings of a prefix of the tokens fail, those of all the tokens
/// fail the same way.
proof fn lemma_readings_stop(ts: Seq<Seq<char>>, i: int)
    requires
        0 <= i <= ts.len(),
        readings_of(ts.take(i)) is Err,
    ensures
        readings_of(ts) == readings_of(ts.take(i)),
    decreases ts.len() - i,
{
    if i < ts.len() {
        assert(ts.take(i + 1).drop_last() =~= ts.take(i));
        lemma_readings_stop(ts, i + 1);
    } else {
        assert(ts.take(i) =~= ts);
    }
}

} // verus!
