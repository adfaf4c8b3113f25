//! The tag-length-value format of structured replies: big-endian 32-bit
//! tags and lengths, lists of values and UTF-8 texts.
use vstd::prelude::*;
use vstd::slice::{slice_subrange, slice_to_vec};
use vstd::utf8::{decode_utf8, valid_utf8};

use crate::error::{Error, Fault};
use crate::text::utf8_text;

verus! {

/// The tag of a list: a count, then that many values.
pub const LIST_TAG: u32 = 0x44AA_AA44;

/// The tag of a text: a byte length, then that many bytes of UTF-8.
pub const TEXT_TAG: u32 = 0x3A3A_A3A3;

/// The tag of a binary blob, whose layout is not known.
pub const BLOB_TAG: u32 = 0x2A2A_A2A2;

/// The largest element count that a list may declare.
pub const MAX_LIST_LEN: u32 = 65536;

/// A decoded structured value.
#[derive(Debug, PartialEq, Eq)]
pub enum Object {
    String(String),
    Vector(Vec<Object>),
    Blob(Vec<u8>),
}

/// The model of an [`Object`].
pub enum Value {
    Text(Seq<char>),
    List(Seq<Value>),
    Blob(Seq<u8>),
}

impl View for Object {
    type V = Value;

    open spec fn view(&self) -> Value
        decreases self,
    {
        match self {
            Object::String(s) => Value::Text(s@),
            Object::Vector(v) => Value::List(
                Seq::new(
                    v.len() as nat,
                    |i: int|
                        {
                            if 0 <= i < v.len() {
                                proof {
                                    vstd::std_specs::vec::axiom_vec_index_decreases(*v, i);
                                }
                                v[i].view()
                            } else {
                                Value::Blob(Seq::empty())
                            }
                        },
                ),
            ),
            Object::Blob(b) => Value::Blob(b@),
        }
    }
}

/// The big-endian 32-bit integer held by the four bytes of `b` from `pos` on.
pub open spec fn be_u32_at(b: Seq<u8>, pos: int) -> u32 {
    (b[pos] as int * 0x100_0000 + b[pos + 1] as int * 0x1_0000 + b[pos + 2] as int * 0x100
        + b[pos + 3] as int) as u32
}

/// Relies on byteorder's `BigEndian::read_u32`: the first four bytes of `b`,
/// most significant first (it panics on fewer than four).
#[verifier::external_body]
fn read_be_u32(b: &[u8]) -> (r: u32)
    requires
        b@.len() >= 4,
    ensures
        r == be_u32_at(b@, 0),
{
    <byteorder::BigEndian as byteorder::ByteOrder>::read_u32(b)
}

/// The value encoded in `data` from `pos` on, and the position just past it.
pub open spec fn decode_at(data: Seq<u8>, pos: int) -> Result<(Value, int), Fault>
    decreases data.len() - pos, 0int, 0int,
{
    if pos < 0 || pos + 4 > data.len() {
        Err(Fault::Truncated)
    } else {
        let tag = be_u32_at(data, pos);
        if tag == LIST_TAG {
            if pos + 8 > data.len() {
                Err(Fault::Truncated)
            } else {
                let count = be_u32_at(data, pos + 4);
                if count > MAX_LIST_LEN {
                    Err(Fault::OversizedList(count))
                } else {
                    match decode_items(data, pos + 8, count as int) {
                        Ok((items, end)) => Ok((Value::List(items), end)),
                        Err(e) => Err(e),
                    }
                }
            }
        } else if tag == TEXT_TAG {
            if pos + 8 > data.len() {
                Err(Fault::Truncated)
            } else {
                let size = be_u32_at(data, pos + 4);
                if pos + 8 + size > data.len() {
                    Err(Fault::Truncated)
                } else {
                    let bytes = data.subrange(pos + 8, pos + 8 + size);
                    if valid_utf8(bytes) {
                        Ok((Value::Text(decode_utf8(bytes)), pos + 8 + size))
                    } else {
                        Err(Fault::InvalidUtf8(bytes))
                    }
                }
            }
        } else if tag == BLOB_TAG {
            Err(Fault::UnsupportedTag(tag))
        } else {
            Err(Fault::UnknownTag(tag))
        }
    }
}

/// The first `count` values encoded one after another in `data` from `pos`
/// on, and the position just past the last of them.
pub open spec fn decode_items(data: Seq<u8>, pos: int, count: int) -> Result<
    (Seq<Value>, int),
    Fault,
>
    decreases data.len() - pos, 1int, count,
{
    if count <= 0 {
        Ok((Seq::empty(), pos))
    } else {
        match decode_items(data, pos, count - 1) {
            Ok((items, end)) => {
                // a decoded value never ends before it starts or past the
                // input: this test only bounds the recursion
                if pos <= end <= data.len() {
                    match decode_at(data, end) {
                        Ok((v, next)) => Ok((items.push(v), next)),
                        Err(e) => Err(e),
                    }
                } else {
                    Err(Fault::Truncated)
                }
            },
            Err(e) => Err(e),
        }
    }
}

/// Whether an executable decoding result is the one the model gives.
pub open spec fn agrees(r: Result<(Object, usize), Error>, s: Result<(Value, int), Fault>) -> bool {
    match (r, s) {
        (Ok((o, end)), Ok((v, send))) => o@ == v && end as int == send,
        (Err(e), Err(f)) => e@ == f,
        _ => false,
    }
}

impl Object {
    /// The elements of a list, or `None` for any other value.
    pub fn into_vec(self) -> (r: Option<Vec<Object>>)
        ensures
            self is Vector <==> r is Some,
            self matches Object::Vector(v) ==> r == Some(v),
    {
        if let Object::Vector(v) = self {
            Some(v)
        } else {
            None
        }
    }

    /// The content of a text, or `None` for any other value.
    pub fn into_string(self) -> (r: Option<String>)
        ensures
            self is String <==> r is Some,
            self matches Object::String(s) ==> r == Some(s),
    {
        if let Object::String(s) = self {
            Some(s)
        } else {
            None
        }
    }

    /// Decodes the value at the start of `data`; on success returns it with
    /// the number of bytes that it took.
    pub fn read(data: &[u8]) -> (r: Result<(Object, usize), Error>)
        ensures
            agrees(r, decode_at(data@, 0)),
    {
        read_at(data, 0)
    }
}

/// Decoding a list whose declared count exceeds the limit fails on its
/// eight-byte header alone, whatever bytes follow it, if any.
pub proof fn lemma_oversized_list_rejected(header: Seq<u8>, rest: Seq<u8>)
    requires
        header.len() == 8,
        be_u32_at(header, 0) == LIST_TAG,
        be_u32_at(header, 4) > MAX_LIST_LEN,
    ensures
        decode_at(header + rest, 0) == Err::<(Value, int), Fault>(
            Fault::OversizedList(be_u32_at(header, 4)),
        ),
{
    let data = header + rest;
    assert(data.subrange(0, 8) == header);
    assert(be_u32_at(data, 0) == be_u32_at(header, 0));
    assert(be_u32_at(data, 4) == be_u32_at(header, 4));
}

fn read_at(data: &[u8], pos: usize) -> (r: Result<(Object, usize), Error>)
    requires
        pos <= data@.len(),
    ensures
        agrees(r, decode_at(data@, pos as int)),
        r matches Ok((_, end)) ==> pos < end <= data@.len(),
    decreases data@.len() - pos,
{
    if data.len() - pos < 4 {
        return Err(Error::Truncated);
    }
    let tag = read_be_u32(slice_subrange(data, pos, pos + 4));
    if tag == LIST_TAG {
        if data.len() - pos < 8 {
            return Err(Error::Truncated);
        }
        let count = read_be_u32(slice_subrange(data, pos + 4, pos + 8));
        if count > MAX_LIST_LEN {
            return Err(Error::OversizedList(count));
        }
        let start = pos + 8;
        let mut items: Vec<Object> = Vec::new();
        let mut end: usize = start;
        let mut i: u32 = 0;
        while i < count
            invariant
                start == pos + 8,
                start <= end <= data@.len(),
                i <= count,
                count <= MAX_LIST_LEN,
                decode_items(data@, start as int, i as int) matches Ok((vs, e)) && e == end
                    && vs == Seq::new(items@.len(), |k: int| items@[k]@),
                decode_at(data@, pos as int) == (match decode_items(data@, start as int, count as int) {
                    Ok((vs, e)) => Ok((Value::List(vs), e)),
                    Err(f) => Err(f),
                }),
            decreases count - i,
        {
            match read_at(data, end) {
                Ok((o, next)) => {
                    items.push(o);
                    end = next;
                },
                Err(e) => {
                    assert(decode_items(data@, start as int, i + 1) is Err);
                    proof { lemma_items_stop(data@, start as int, i + 1, count as int); }
                    return Err(e);
                },
            }
            i = i + 1;
        }
        let r = Object::Vector(items);
        assert(r@ == Value::List(Seq::new(items@.len(), |k: int| items@[k]@))) by {
            assert(Seq::new(items@.len(), |k: int| items@[k]@) =~= match r@ {
                Value::List(vs) => vs,
                _ => Seq::empty(),
            });
        }
        Ok((r, end))
    } else if tag == TEXT_TAG {
        if data.len() - pos < 8 {
            return Err(Error::Truncated);
        }
        let size = read_be_u32(slice_subrange(data, pos + 4, pos + 8));
        if data.len() - (pos + 8) < size as usize {
            return Err(Error::Truncated);
        }
        let end = pos + 8 + size as usize;
        let field = slice_subrange(data, pos + 8, end);
        match utf8_text(slice_to_vec(field)) {
            Some(s) => Ok((Object::String(s), end)),
            None => Err(Error::InvalidUtf8(slice_to_vec(field))),
        }
    } else if tag == BLOB_TAG {
        Err(Error::UnsupportedTag(tag))
    } else {
        Err(Error::UnknownTag(tag))
    }
}

/// The texts of a list of texts, in order.
pub open spec fn texts_of(vs: Seq<Value>) -> Seq<Seq<char>> {
    Seq::new(vs.len(), |i: int| match vs[i] {
        Value::Text(t) => t,
        _ => Seq::empty(),
    })
}

/// The names of a file listing, which must be a list of texts.
pub fn file_names(listing: Object) -> (r: Result<Vec<String>, Error>)
    ensures
        match listing@ {
            Value::List(vs) => if forall|i: int| 0 <= i < vs.len() ==> (#[trigger] vs[i]) is Text {
                r matches Ok(names) && names@.len() == vs.len() && forall|i: int|
                    0 <= i < vs.len() ==> (#[trigger] names@[i])@ == texts_of(vs)[i]
            } else {
                r matches Err(e) && e@ == Fault::NotText
            },
            _ => r matches Err(e) && e@ == Fault::NotAList,
        },
{
    let ghost whole = listing@;
    let items = match listing {
        Object::Vector(v) => v,
        _ => return Err(Error::NotAList),
    };
    assert(whole == Value::List(Seq::new(items@.len(), |k: int| items@[k]@))) by {
        assert(Seq::new(items@.len(), |k: int| items@[k]@) =~= match whole {
            Value::List(vs) => vs,
            _ => Seq::empty(),
        });
    }
    match texts(&items) {
        Some(names) => Ok(names),
        None => Err(Error::NotText),
    }
}

/// The texts of `items`, if every one of them is a text.
fn texts(items: &Vec<Object>) -> (r: Option<Vec<String>>)
    ensures
        ({
            let vs = Seq::new(items@.len(), |k: int| items@[k]@);
            if forall|i: int| 0 <= i < vs.len() ==> (#[trigger] vs[i]) is Text {
                r matches Some(names) && names@.len() == vs.len() && forall|i: int|
                    0 <= i < vs.len() ==> (#[trigger] names@[i])@ == texts_of(vs)[i]
            } else {
                r is None
            }
        }),
{
    let ghost vs = Seq::new(items@.len(), |k: int| items@[k]@);
    let mut names: Vec<String> = Vec::new();
    let mut i: usize = 0;
    while i < items.len()
        invariant
            i <= items@.len(),
            vs == Seq::new(items@.len(), |k: int| items@[k]@),
            names@.len() == i,
            forall|k: int| 0 <= k < i ==> (#[trigger] vs[k]) is Text,
            forall|k: int| 0 <= k < i ==> (#[trigger] names@[k])@ == texts_of(vs)[k],
        decreases items@.len() - i,
    {
        match &items[i] {
            Object::String(s) => names.push(s.clone()),
            _ => {
                assert(!(vs[i as int] is Text));
                return None;
            },
        }
        i = i + 1;
    }
    Some(names)
}

/// Once decoding the first `i` values fails, decoding more of them fails too,
/// with the same fault.
proof fn lemma_items_stop(data: Seq<u8>, pos: int, i: int, n: int)
    requires
        0 < i <= n,
        decode_items(data, pos, i) is Err,
    ensures
        decode_items(data, pos, n) == decode_items(data, pos, i),
    decreases n - i,
{
    if i < n {
        lemma_items_stop(data, pos, i, n - 1);
    }
}

} // verus!
