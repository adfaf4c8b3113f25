//! Checks of the replies of the progress and control commands, and of a new
//! machine name before it is sent.
use vstd::prelude::*;

use crate::error::{Error, Fault};
use crate::status::after;
use crate::text::{decimal_upto, parse_decimal, starts_with, strip_prefix, strip_suffix};

verus! {

/// The longest machine name, in bytes, that the device accepts.
pub const MAX_NAME_LEN: usize = 32;

/// The progress percentage that a reply `SD printing byte <n>/100` reports.
pub open spec fn progress_of(text: Seq<char>) -> Result<u8, Fault> {
    match after(text, "SD printing byte "@) {
        None => Err(Fault::UnexpectedReply(text)),
        Some(rest) => {
            let suffix = "/100"@;
            if suffix.len() <= rest.len() && rest.skip(rest.len() - suffix.len()) == suffix {
                let number = rest.take(rest.len() - suffix.len());
                match decimal_upto(number, 255) {
                    Some(v) => Ok(v as u8),
                    None => Err(Fault::BadNumber(number)),
                }
            } else {
                Err(Fault::UnexpectedReply(text))
            }
        },
    }
}

/// Reads the reply of the progress command.
pub fn parse_progress(text: &str) -> (r: Result<u8, Error>)
    ensures
        match (r, progress_of(text@)) {
            (Ok(a), Ok(b)) => a == b,
            (Err(e), Err(f)) => e@ == f,
            _ => false,
        },
{
    let rest = match strip_prefix(text, "SD printing byte ") {
        Some(rest) => rest,
        None => return Err(Error::UnexpectedReply(text.to_owned())),
    };
    let number = match strip_suffix(rest, "/100") {
        Some(n) => n,
        None => return Err(Error::UnexpectedReply(text.to_owned())),
    };
    match parse_decimal(number, 255) {
        Some(v) => Ok(v as u8),
        None => Err(Error::BadNumber(number.to_owned())),
    }
}

/// Accepts a reply that starts with `prefix`.
fn expect_prefix(reply: &str, prefix: &str) -> (r: Result<(), Error>)
    ensures
        r is Ok <==> prefix@.is_prefix_of(reply@),
        r matches Err(e) ==> e@ == Fault::UnexpectedReply(reply@),
{
    if starts_with(reply, prefix) {
        Ok(())
    } else {
        Err(Error::UnexpectedReply(reply.to_owned()))
    }
}

/// Accepts the reply of the login command, which must start with `Control Success`.
pub fn check_login_reply(reply: &str) -> (r: Result<(), Error>)
    ensures
        r is Ok <==> "Control Success"@.is_prefix_of(reply@),
        r matches Err(e) ==> e@ == Fault::UnexpectedReply(reply@),
{
    expect_prefix(reply, "Control Success")
}

/// Accepts the reply of the logout command, which must start with `Control Release`.
pub fn check_logout_reply(reply: &str) -> (r: Result<(), Error>)
    ensures
        r is Ok <==> "Control Release"@.is_prefix_of(reply@),
        r matches Err(e) ==> e@ == Fault::UnexpectedReply(reply@),
{
    expect_prefix(reply, "Control Release")
}

/// Checks a new machine name before anything is sent: at most
/// [`MAX_NAME_LEN`] bytes, then ASCII only.
pub fn check_new_name(name: &str) -> (r: Result<(), Error>)
    ensures
        name.len() > MAX_NAME_LEN ==> (r matches Err(e) && e@ == Fault::NameTooLong(
            name.len() as nat,
        )),
        name.len() <= MAX_NAME_LEN && !name.is_ascii() ==> (r matches Err(e) && e@
            == Fault::NameNotAscii),
        name.len() <= MAX_NAME_LEN && name.is_ascii() ==> r is Ok,
{
    let n = name.len();
    if n > MAX_NAME_LEN {
        return Err(Error::NameTooLong(n));
    }
    if !name.is_ascii() {
        return Err(Error::NameNotAscii);
    }
    Ok(())
}

} // verus!
