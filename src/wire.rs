use vstd::prelude::*;
use vstd::string::StringSliceAdditionalSpecFns;
use vstd::utf8::valid_utf8;
use crate::error::{code_of_error, Error};
use crate::names::{name_views, utf8};
use crate::store::{first_pos, lemma_first_pos_at};

verus! {

/// Length of the serialized name list that follows a `List` reply tag.
pub const LIST_BYTES: usize = 256;

/// A decoded request; names are in their 32-byte zero-padded wire form.
#[derive(Debug, Clone, Copy, PartialEq, Eq)]
pub enum Request {
    /// Ask for the capability `name`, proving identity with `thread_cap`.
    Capability { name: [u8; 32], thread_cap: u64 },
    /// Give back the capability `name`.
    Revoke { name: [u8; 32] },
    /// List the caller's live grants.
    Query,
}

impl Request {
    /// The thread capability to verify the sender against (zero for
    /// requests that carry none).
    pub fn thread_cap(&self) -> (r: u64)
        ensures
            r == match *self {
                Request::Capability { thread_cap, .. } => thread_cap,
                _ => 0,
            },
    {
        match self {
            Request::Capability { thread_cap, .. } => *thread_cap,
            _ => 0,
        }
    }
}

/// A reply to a request.
#[derive(Debug, PartialEq, Eq)]
pub enum Response {
    Granted,
    Denied,
    Revoked,
    /// Serialized names of the caller's live grants, `LIST_BYTES` long.
    List(Vec<u8>),
    Error(Error),
}

/// Byte `i` of `b`, or zero past its end.
pub open spec fn byte_or_zero(b: Seq<u8>, i: int) -> u8 {
    if 0 <= i < b.len() {
        b[i]
    } else {
        0
    }
}

/// The 32-byte name field that follows the tag; missing bytes read as zero.
pub open spec fn name_field(b: Seq<u8>) -> Seq<u8> {
    Seq::new(32, |k: int| byte_or_zero(b, 1 + k))
}

/// Offset of the thread capability word in a capability request.
pub const THREAD_CAP_AT: usize = 33;

/// Little-endian value (the word of the 64-bit target) of the 8 bytes of `b` at `o`.
pub open spec fn le_word(b: Seq<u8>, o: int) -> int {
    b[o] as int + b[o + 1] as int * 0x100 + b[o + 2] as int * 0x1_0000 + b[o + 3] as int
        * 0x100_0000 + b[o + 4] as int * 0x1_0000_0000 + b[o + 5] as int * 0x100_0000_0000
        + b[o + 6] as int * 0x1_0000_0000_0000 + b[o + 7] as int * 0x100_0000_0000_0000
}

/// Whether `b` is a well-formed request: a known tag, and for a capability
/// request the thread capability word complete.
pub open spec fn decodable(b: Seq<u8>) -> bool {
    b.len() >= 1 && (b[0] == 1 || b[0] == 2 || (b[0] == 0 && b.len() >= THREAD_CAP_AT + 8))
}

/// Copy the name field of a request.
fn read_name(b: &[u8]) -> (r: [u8; 32])
    ensures
        r@ == name_field(b@),
{
    let mut r = [0u8; 32];
    let mut k: usize = 0;
    while k < 32
        invariant
            k <= 32,
            r@.len() == 32,
            forall|i: int| 0 <= i < k ==> r@[i] == byte_or_zero(b@, 1 + i),
            forall|i: int| k <= i < 32 ==> r@[i] == 0,
        decreases 32 - k,
    {
        if k + 1 < b.len() {
            r[k] = b[k + 1];
        }
        k = k + 1;
    }
    assert(r@ =~= name_field(b@));
    r
}

/// Read the little-endian word at `o`.
fn read_word(b: &[u8], o: usize) -> (r: u64)
    requires
        o + 8 <= b@.len(),
    ensures
        r as int == le_word(b@, o as int),
{
    (b[o] as u64) + (b[o + 1] as u64) * 0x100 + (b[o + 2] as u64) * 0x1_0000 + (b[o
        + 3] as u64) * 0x100_0000 + (b[o + 4] as u64) * 0x1_0000_0000 + (b[o + 5] as u64)
        * 0x100_0000_0000 + (b[o + 6] as u64) * 0x1_0000_0000_0000 + (b[o + 7] as u64)
        * 0x100_0000_0000_0000
}

/// Decode an incoming message: tag byte, then for tag 0 a name and a
/// thread capability word, for tag 1 a name, for tag 2 nothing. Anything
/// else is `Invalid`.
pub fn decode_request(b: &[u8]) -> (r: Result<Request, Error>)
    ensures
        r is Err <==> !decodable(b@),
        r matches Err(e) ==> e == Error::Invalid,
        r matches Ok(Request::Capability { name, thread_cap }) ==> b@[0] == 0 && name@ == name_field(
            b@,
        ) && thread_cap as int == le_word(b@, THREAD_CAP_AT as int),
        r matches Ok(Request::Revoke { name }) ==> b@[0] == 1 && name@ == name_field(b@),
        r matches Ok(Request::Query) ==> b@[0] == 2,
{
    if b.len() == 0 {
        return Err(Error::Invalid);
    }
    match b[0] {
        0 => {
            if b.len() < THREAD_CAP_AT + 8 {
                return Err(Error::Invalid);
            }
            let name = read_name(b);
            let thread_cap = read_word(b, THREAD_CAP_AT);
            Ok(Request::Capability { name, thread_cap })
        },
        1 => Ok(Request::Revoke { name: read_name(b) }),
        2 => Ok(Request::Query),
        _ => Err(Error::Invalid),
    }
}

/// The byte that carries an error in a reply: its kernel code, as a byte.
pub open spec fn error_byte(e: Error) -> u8 {
    (code_of_error(e) + 256) as u8
}

/// Serialize a reply: kind byte (0 granted, 1 denied, 2 revoked, 3 list,
/// 4 error), then the list bytes or the error byte.
pub fn encode_response(resp: &Response) -> (r: Vec<u8>)
    ensures
        *resp == Response::Granted ==> r@ == seq![0u8],
        *resp == Response::Denied ==> r@ == seq![1u8],
        *resp == Response::Revoked ==> r@ == seq![2u8],
        resp matches Response::List(d) ==> r@ == seq![3u8] + d@,
        resp matches Response::Error(e) ==> r@ == seq![4u8, error_byte(*e)],
{
    let mut out: Vec<u8> = Vec::new();
    match resp {
        Response::Granted => out.push(0),
        Response::Denied => out.push(1),
        Response::Revoked => out.push(2),
        Response::List(d) => {
            out.push(3);
            let mut i: usize = 0;
            while i < d.len()
                invariant
                    i <= d@.len(),
                    out@ == seq![3u8] + d@.subrange(0, i as int),
                decreases d@.len() - i,
            {
                out.push(d[i]);
                assert(d@.subrange(0, i + 1) =~= d@.subrange(0, i as int).push(d@[i as int]));
                assert(out@ =~= seq![3u8] + d@.subrange(0, i + 1));
                i = i + 1;
            }
            assert(d@.subrange(0, d@.len() as int) =~= d@);
        },
        Response::Error(e) => {
            out.push(4);
            let c = e.raw();
            out.push((c + 256) as u8);
        },
    }
    proof {
        if *resp == Response::Granted {
            assert(out@ =~= seq![0u8]);
        } else if *resp == Response::Denied {
            assert(out@ =~= seq![1u8]);
        } else if *resp == Response::Revoked {
            assert(out@ =~= seq![2u8]);
        }
        if let Response::Error(e) = resp {
            assert(out@ =~= seq![4u8, error_byte(*e)]);
        }
    }
    out
}

/// Relies on `core::str::from_utf8`: it succeeds exactly on well-formed
/// UTF-8, and the text it returns has the given bytes.
#[verifier::external_body]
fn text_of<'a>(b: &'a [u8]) -> (r: Option<&'a str>)
    ensures
        r is Some <==> valid_utf8(b@),
        r matches Some(s) ==> s.spec_bytes() == b@,
{
    core::str::from_utf8(b).ok()
}

/// The bytes of a zero-padded field before its first zero.
pub open spec fn until_nul(b: Seq<u8>) -> Seq<u8> {
    b.subrange(0, first_pos(b, 0u8))
}

/// The name a wire field stands for: its bytes before the first zero when
/// they are UTF-8, else the text `invalid` (which names nothing).
pub open spec fn name_text(b: Seq<u8>) -> Seq<u8> {
    if valid_utf8(until_nul(b)) {
        until_nul(b)
    } else {
        utf8("invalid")
    }
}

/// Position of the first zero byte of a name field, or 32.
fn nul_index(bytes: &[u8; 32]) -> (r: usize)
    ensures
        r as int == first_pos(bytes@, 0u8),
        r <= 32,
{
    let mut len: usize = 0;
    while len < 32 && bytes[len] != 0
        invariant
            len <= 32,
            bytes@.len() == 32,
            forall|k: int| 0 <= k < len ==> bytes@[k] != 0u8,
        decreases 32 - len,
    {
        len = len + 1;
    }
    proof {
        lemma_first_pos_at(bytes@, 0u8, len as int);
    }
    len
}

/// The name carried in a zero-padded wire field.
pub fn null_terminated_str(bytes: &[u8; 32]) -> (r: &str)
    ensures
        utf8(r) == name_text(bytes@),
{
    let len = nul_index(bytes);
    let s = bytes.as_slice();
    let prefix = &s[0..len];
    assert(prefix@ == until_nul(bytes@));
    match text_of(prefix) {
        Some(t) => t,
        None => "invalid",
    }
}

/// Names packed one after another, each as its bytes before the first zero
/// followed by a zero, stopping before the first that does not fit in
/// `room` bytes.
pub open spec fn pack(names: Seq<Seq<u8>>, room: int) -> Seq<u8>
    decreases names.len(),
{
    if names.len() == 0 {
        Seq::empty()
    } else {
        let e = until_nul(names[0]).push(0u8);
        if e.len() <= room {
            e + pack(names.drop_first(), room - e.len())
        } else {
            Seq::empty()
        }
    }
}

/// A packing never exceeds its room.
pub proof fn lemma_pack_len(names: Seq<Seq<u8>>, room: int)
    requires
        room >= 0,
    ensures
        pack(names, room).len() <= room,
    decreases names.len(),
{
    if names.len() > 0 {
        let e = until_nul(names[0]).push(0u8);
        if e.len() <= room {
            lemma_pack_len(names.drop_first(), room - e.len());
        }
    }
}

/// Payload of a `List` reply: the packed names, zero-filled to `LIST_BYTES`.
pub open spec fn list_bytes(names: Seq<Seq<u8>>) -> Seq<u8> {
    let p = pack(names, LIST_BYTES as int);
    p + Seq::new((LIST_BYTES - p.len()) as nat, |i: int| 0u8)
}

/// Serialize a list of canonical names into a `List` payload.
pub fn list_payload(names: &Vec<[u8; 32]>) -> (r: Vec<u8>)
    ensures
        r@ == list_bytes(name_views(names@)),
{
    let ghost ns = name_views(names@);
    proof {
        lemma_pack_len(ns, LIST_BYTES as int);
    }
    let mut out: Vec<u8> = Vec::new();
    let mut k: usize = 0;
    assert(ns.subrange(0, ns.len() as int) =~= ns);
    assert(out@ + pack(ns, LIST_BYTES as int) =~= pack(ns, LIST_BYTES as int));
    while k < names.len()
        invariant
            ns == name_views(names@),
            k <= names@.len(),
            out@.len() <= LIST_BYTES,
            out@ + pack(ns.subrange(k as int, ns.len() as int), LIST_BYTES - out@.len()) == pack(
                ns,
                LIST_BYTES as int,
            ),
        decreases names@.len() - k,
    {
        let ghost rest = ns.subrange(k as int, ns.len() as int);
        assert(rest[0] == names@[k as int]@);
        assert(rest.drop_first() =~= ns.subrange(k + 1, ns.len() as int));
        let n = nul_index(&names[k]);
        if out.len() + n + 1 > LIST_BYTES {
            assert(out@ + Seq::<u8>::empty() =~= out@);
            return zero_fill(out);
        }
        let ghost before = out@;
        let mut j: usize = 0;
        while j < n
            invariant
                k < names@.len(),
                n <= 32,
                n as int == first_pos(names@[k as int]@, 0u8),
                j <= n,
                out@ == before + names@[k as int]@.subrange(0, j as int),
            decreases n - j,
        {
            out.push(names[k][j]);
            assert(out@ =~= before + names@[k as int]@.subrange(0, j + 1));
            j = j + 1;
        }
        out.push(0);
        assert(out@ =~= before + until_nul(rest[0]).push(0u8));
        assert(before + pack(rest, LIST_BYTES - before.len()) =~= out@ + pack(
            rest.drop_first(),
            LIST_BYTES - out@.len(),
        ));
        k = k + 1;
    }
    assert(ns.subrange(names@.len() as int, ns.len() as int) =~= Seq::<Seq<u8>>::empty());
    assert(out@ + Seq::<u8>::empty() =~= out@);
    zero_fill(out)
}

/// Extend with zeros to `LIST_BYTES`.
fn zero_fill(v: Vec<u8>) -> (r: Vec<u8>)
    requires
        v@.len() <= LIST_BYTES,
    ensures
        r@ == v@ + Seq::new((LIST_BYTES - v@.len()) as nat, |i: int| 0u8),
{
    let mut out = v;
    let ghost start = out@;
    while out.len() < LIST_BYTES
        invariant
            start.len() <= out@.len() <= LIST_BYTES,
            out@ == start + Seq::new((out@.len() - start.len()) as nat, |i: int| 0u8),
        decreases LIST_BYTES - out@.len(),
    {
        out.push(0);
        assert(out@ =~= start + Seq::new((out@.len() - start.len()) as nat, |i: int| 0u8));
    }
    out
}

} // verus!
