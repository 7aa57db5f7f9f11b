//! Key-value protocol (RESP2) frames: their model, their byte encoding, and the
//! streaming decoder and encoder, which call redis-protocol for each frame.
use vstd::prelude::*;

verus! {

broadcast use vstd::std_specs::vec::group_vec_axioms;

/// One frame of the key-value protocol, exactly as it travels on the wire.
#[derive(Debug)]
pub enum RedisFrame {
    SimpleString(Vec<u8>),
    Error(Vec<u8>),
    Integer(i64),
    BulkString(Vec<u8>),
    Array(Vec<RedisFrame>),
    Null,
}

/// The mathematical value of a frame.
pub enum Resp {
    Simple(Seq<u8>),
    Fail(Seq<u8>),
    Int(int),
    Bulk(Seq<u8>),
    Arr(Seq<Resp>),
    Nil,
}

pub open spec fn frame_model(f: RedisFrame) -> Resp
    decreases f,
{
    match f {
        RedisFrame::SimpleString(s) => Resp::Simple(s@),
        RedisFrame::Error(s) => Resp::Fail(s@),
        RedisFrame::Integer(i) => Resp::Int(i as int),
        RedisFrame::BulkString(b) => Resp::Bulk(b@),
        RedisFrame::Array(v) => Resp::Arr(frames_model(v@)),
        RedisFrame::Null => Resp::Nil,
    }
}

pub open spec fn frames_model(s: Seq<RedisFrame>) -> Seq<Resp>
    decreases s,
{
    if s.len() == 0 {
        Seq::empty()
    } else {
        frames_model(s.subrange(0, s.len() - 1)).push(frame_model(s[s.len() - 1]))
    }
}

pub proof fn lemma_frames_model(s: Seq<RedisFrame>)
    ensures
        frames_model(s).len() == s.len(),
        forall|j: int| 0 <= j < s.len() ==> #[trigger] frames_model(s)[j] == frame_model(s[j]),
    decreases s.len(),
{
    if s.len() > 0 {
        lemma_frames_model(s.subrange(0, s.len() - 1));
    }
}

impl View for RedisFrame {
    type V = Resp;

    open spec fn view(&self) -> Resp {
        frame_model(*self)
    }
}

pub open spec fn crlf() -> Seq<u8> {
    seq![13u8, 10u8]
}

/// Decimal digits of a natural number, most significant first, no leading zeros.
pub open spec fn digits(n: nat) -> Seq<u8>
    decreases n,
{
    if n < 10 {
        seq![(48 + n) as u8]
    } else {
        digits(n / 10) + seq![(48 + n % 10) as u8]
    }
}

/// Canonical decimal text of an integer: a minus sign for negatives, then digits.
pub open spec fn decimal(i: int) -> Seq<u8> {
    if i < 0 {
        seq![45u8] + digits((-i) as nat)
    } else {
        digits(i as nat)
    }
}

/// The bytes of a null frame: `$-1\r\n`.
pub open spec fn null_bytes() -> Seq<u8> {
    seq![36u8, 45u8, 49u8, 13u8, 10u8]
}

/// The exact serialization of a frame.
pub open spec fn resp_bytes(r: Resp) -> Seq<u8>
    decreases r,
{
    match r {
        Resp::Simple(s) => seq![43u8] + s + crlf(),
        Resp::Fail(s) => seq![45u8] + s + crlf(),
        Resp::Int(i) => seq![58u8] + decimal(i) + crlf(),
        Resp::Bulk(b) => seq![36u8] + decimal(b.len() as int) + crlf() + b + crlf(),
        Resp::Arr(v) => seq![42u8] + decimal(v.len() as int) + crlf() + resps_bytes(v),
        Resp::Nil => null_bytes(),
    }
}

/// The concatenated serializations of a sequence of frames.
pub open spec fn resps_bytes(s: Seq<Resp>) -> Seq<u8>
    decreases s,
{
    if s.len() == 0 {
        Seq::empty()
    } else {
        resps_bytes(s.subrange(0, s.len() - 1)) + resp_bytes(s[s.len() - 1])
    }
}

pub open spec fn frame_bytes(f: RedisFrame) -> Seq<u8> {
    resp_bytes(f@)
}


/// No CR in `s` is followed by an LF: a line that the end of a simple string
/// or an error frame cannot be confused with.
pub open spec fn single_line(s: Seq<u8>) -> bool {
    forall|j: int| 0 <= j < s.len() - 1 ==> !(#[trigger] s[j] == 13u8 && s[j + 1] == 10u8)
}

/// A frame that can be written: no text of a simple string or an error holds
/// CRLF, and no integer is `i64::MIN`, which the encoder cannot size.
pub open spec fn valid_resp(r: Resp) -> bool
    decreases r,
{
    match r {
        Resp::Simple(s) => single_line(s),
        Resp::Fail(s) => single_line(s),
        Resp::Int(i) => i64::MIN < i <= i64::MAX,
        Resp::Arr(v) => valid_resps(v),
        _ => true,
    }
}

pub open spec fn valid_resps(s: Seq<Resp>) -> bool
    decreases s,
{
    if s.len() == 0 {
        true
    } else {
        valid_resps(s.subrange(0, s.len() - 1)) && valid_resp(s[s.len() - 1])
    }
}

pub open spec fn valid_frame(f: RedisFrame) -> bool {
    valid_resp(f@)
}

/// Well-formed UTF-8: each character as one to four bytes, no overlong forms,
/// no surrogates, nothing above U+10FFFF.
pub open spec fn is_utf8(s: Seq<u8>) -> bool
    decreases s.len(),
{
    if s.len() == 0 {
        true
    } else {
        let b0 = s[0];
        let cont = |i: int| i < s.len() && 0x80 <= s[i] <= 0xBF;
        let in_range = |i: int, lo: u8, hi: u8| i < s.len() && lo <= s[i] <= hi;
        if b0 <= 0x7F {
            is_utf8(s.subrange(1, s.len() as int))
        } else if 0xC2 <= b0 <= 0xDF {
            cont(1) && is_utf8(s.subrange(2, s.len() as int))
        } else if b0 == 0xE0 {
            in_range(1, 0xA0, 0xBF) && cont(2) && is_utf8(s.subrange(3, s.len() as int))
        } else if (0xE1 <= b0 <= 0xEC) || (0xEE <= b0 <= 0xEF) {
            cont(1) && cont(2) && is_utf8(s.subrange(3, s.len() as int))
        } else if b0 == 0xED {
            in_range(1, 0x80, 0x9F) && cont(2) && is_utf8(s.subrange(3, s.len() as int))
        } else if b0 == 0xF0 {
            in_range(1, 0x90, 0xBF) && cont(2) && cont(3) && is_utf8(s.subrange(4, s.len() as int))
        } else if 0xF1 <= b0 <= 0xF3 {
            cont(1) && cont(2) && cont(3) && is_utf8(s.subrange(4, s.len() as int))
        } else if b0 == 0xF4 {
            in_range(1, 0x80, 0x8F) && cont(2) && cont(3) && is_utf8(s.subrange(4, s.len() as int))
        } else {
            false
        }
    }
}

/// Every error text in the frame is UTF-8, as redis-protocol's error frames are.
pub open spec fn utf8_errors(r: Resp) -> bool
    decreases r,
{
    match r {
        Resp::Fail(s) => is_utf8(s),
        Resp::Arr(v) => utf8_errors_all(v),
        _ => true,
    }
}

pub open spec fn utf8_errors_all(s: Seq<Resp>) -> bool
    decreases s,
{
    if s.len() == 0 {
        true
    } else {
        utf8_errors_all(s.subrange(0, s.len() - 1)) && utf8_errors(s[s.len() - 1])
    }
}

/// A valid frame whose error texts are UTF-8: one that redis-protocol reads
/// back from its bytes and writes without fail.
pub open spec fn wire_frame(r: Resp) -> bool {
    valid_resp(r) && utf8_errors(r)
}

pub open spec fn wire_frames(s: Seq<Resp>) -> bool {
    valid_resps(s) && utf8_errors_all(s)
}

pub proof fn lemma_wire_frames_index(s: Seq<Resp>, i: int)
    requires
        wire_frames(s),
        0 <= i < s.len(),
    ensures
        wire_frame(s[i]),
    decreases s.len(),
{
    lemma_valid_resps_index(s, i);
    if i < s.len() - 1 {
        lemma_wire_frames_index(s.subrange(0, s.len() - 1), i);
    }
}

/// Every index that both sequences have holds the same byte in each.
pub open spec fn agree(a: Seq<u8>, b: Seq<u8>) -> bool {
    forall|j: int| 0 <= j < a.len() && j < b.len() ==> a[j] == b[j]
}

/// At `pos` starts an integer, bulk or array frame whose first line (up to its
/// first CRLF) is all there and holds a byte that is no digit and no sign, so
/// that it cannot be read as a number.
pub open spec fn bad_number_line(b: Seq<u8>, pos: int) -> bool {
    &&& 0 <= pos < b.len()
    &&& (b[pos] == 58u8 || b[pos] == 36u8 || b[pos] == 42u8)
    &&& exists|c: int| #[trigger] first_crlf_at(b, pos, c) && non_numeric_in(b, pos, c)
}

/// The first CRLF after `pos` starts at `c`.
pub open spec fn first_crlf_at(b: Seq<u8>, pos: int, c: int) -> bool {
    &&& pos < c
    &&& c + 1 < b.len()
    &&& b[c] == 13u8
    &&& b[c + 1] == 10u8
    &&& forall|j: int| pos < j < c ==> !(b[j] == 13u8 && #[trigger] b[j + 1] == 10u8)
}

/// Some byte strictly between `pos` and `c` is no digit and no sign.
pub open spec fn non_numeric_in(b: Seq<u8>, pos: int, c: int) -> bool {
    exists|j: int| #[trigger] is_non_numeric_at(b, pos, c, j)
}

pub open spec fn is_non_numeric_at(b: Seq<u8>, pos: int, c: int, j: int) -> bool {
    pos < j < c && !(48u8 <= b[j] <= 57u8 || b[j] == 43u8 || b[j] == 45u8)
}

/// The bytes that start a frame: `+`, `-`, `:`, `$` and `*`.
pub open spec fn is_type_byte(c: u8) -> bool {
    c == 43u8 || c == 45u8 || c == 58u8 || c == 36u8 || c == 42u8
}

/// Appends the decimal digits of `n`.
fn write_digits(n: u64, out: &mut Vec<u8>)
    ensures
        final(out)@ == old(out)@ + digits(n as nat),
    decreases n,
{
    if n >= 10 {
        write_digits(n / 10, out);
    }
    let d: u8 = (n % 10) as u8;
    out.push(48 + d);
    proof {
        assert(final(out)@ =~= old(out)@ + digits(n as nat));
    }
}

pub fn write_decimal(i: i64, out: &mut Vec<u8>)
    ensures
        final(out)@ == old(out)@ + decimal(i as int),
{
    if i < 0 {
        out.push(45u8);
        let m: u64 = if i == i64::MIN {
            9223372036854775808u64
        } else {
            (-i) as u64
        };
        write_digits(m, out);
        assert(final(out)@ =~= old(out)@ + decimal(i as int));
    } else {
        write_digits(i as u64, out);
    }
}

/// Whether no CR in `s` is followed by an LF.
fn is_single_line(s: &Vec<u8>) -> (r: bool)
    ensures
        r == single_line(s@),
{
    if s.len() < 2 {
        return true;
    }
    let mut i: usize = 0;
    while i + 1 < s.len()
        invariant
            s.len() >= 2,
            i + 1 <= s.len(),
            forall|j: int| 0 <= j < i ==> !(#[trigger] s@[j] == 13u8 && s@[j + 1] == 10u8),
        decreases s.len() - i,
    {
        if s[i] == 13u8 && s[i + 1] == 10u8 {
            return false;
        }
        i = i + 1;
    }
    true
}

/// Whether `f` can be written as a frame (see `valid_frame`).
pub fn is_valid_frame(f: &RedisFrame) -> (r: bool)
    ensures
        r == valid_frame(*f),
    decreases f,
{
    match f {
        RedisFrame::SimpleString(s) => is_single_line(s),
        RedisFrame::Error(s) => is_single_line(s),
        RedisFrame::Integer(i) => *i != i64::MIN,
        RedisFrame::Array(v) => {
            let mut i: usize = 0;
            while i < v.len()
                invariant
                    i <= v.len(),
                    *f == RedisFrame::Array(*v),
                    valid_resps(frames_model(v@.subrange(0, i as int))),
                decreases v.len() - i,
            {
                proof {
                    let ff = *f;
                    let vv = ff->Array_0;
                    assert(decreases_to!(ff => vv));
                    assert(decreases_to!(vv => vv@));
                    assert(decreases_to!(ff => vv@[i as int]));
                    assert(v@.subrange(0, i + 1).subrange(0, i as int) =~= v@.subrange(0, i as int));
                    let pre = frames_model(v@.subrange(0, i as int));
                    assert(pre.push(frame_model(v@[i as int])).subrange(0, pre.len() as int) =~= pre);
                }
                if !is_valid_frame(&v[i]) {
                    proof {
                        lemma_frames_model(v@);
                        if valid_resps(frames_model(v@)) {
                            lemma_valid_resps_index(frames_model(v@), i as int);
                        }
                    }
                    return false;
                }
                i = i + 1;
            }
            assert(v@.subrange(0, v.len() as int) =~= v@);
            proof {
                lemma_frames_model(v@);
            }
            true
        },
        _ => true,
    }
}

pub proof fn lemma_valid_resps_index(s: Seq<Resp>, i: int)
    requires
        valid_resps(s),
        0 <= i < s.len(),
    ensures
        valid_resp(s[i]),
    decreases s.len(),
{
    if i < s.len() - 1 {
        lemma_valid_resps_index(s.subrange(0, s.len() - 1), i);
    }
}

/// A copy of `buf[from..to]`.
pub fn copy_range(buf: &Vec<u8>, from: usize, to: usize) -> (r: Vec<u8>)
    requires
        from <= to <= buf.len(),
    ensures
        r@ == buf@.subrange(from as int, to as int),
{
    let mut r: Vec<u8> = Vec::new();
    let mut k: usize = from;
    while k < to
        invariant
            from <= k <= to <= buf.len(),
            r@ == buf@.subrange(from as int, k as int),
        decreases to - k,
    {
        r.push(buf[k]);
        k = k + 1;
        assert(r@ =~= buf@.subrange(from as int, k as int));
    }
    r
}

/// A copy of a byte string.
pub fn copy_bytes(b: &Vec<u8>) -> (r: Vec<u8>)
    ensures
        r@ == b@,
{
    let r = copy_range(b, 0, b.len());
    assert(r@ =~= b@);
    r
}


/// Declares redis-protocol's RESP2 frame, which the decoder and encoder wrappers convert.
#[verifier::external_type_specification]
#[verifier::external_body]
pub struct ExRespFrame(redis_protocol::resp2::types::Frame);

/// Converts a frame decoded by redis-protocol, variant by variant.
#[verifier::external_body]
fn from_protocol(f: redis_protocol::resp2::types::Frame) -> RedisFrame {
    match f {
        redis_protocol::resp2::types::Frame::SimpleString(s) => RedisFrame::SimpleString(s.to_vec()),
        redis_protocol::resp2::types::Frame::Error(s) => RedisFrame::Error(s.as_bytes().to_vec()),
        redis_protocol::resp2::types::Frame::Integer(i) => RedisFrame::Integer(i),
        redis_protocol::resp2::types::Frame::BulkString(b) => RedisFrame::BulkString(b.to_vec()),
        redis_protocol::resp2::types::Frame::Array(v) => RedisFrame::Array(
            v.into_iter().map(from_protocol).collect(),
        ),
        redis_protocol::resp2::types::Frame::Null => RedisFrame::Null,
    }
}

/// Converts a frame to redis-protocol's, variant by variant; `None` where the
/// text of an error frame is not UTF-8, which redis-protocol's error frames must be.
#[verifier::external_body]
fn to_protocol(f: &RedisFrame) -> Option<redis_protocol::resp2::types::Frame> {
    Some(
        match f {
            RedisFrame::SimpleString(s) => redis_protocol::resp2::types::Frame::SimpleString(s.clone().into()),
            RedisFrame::Error(s) => redis_protocol::resp2::types::Frame::Error(String::from_utf8(s.clone()).ok()?.into()),
            RedisFrame::Integer(i) => redis_protocol::resp2::types::Frame::Integer(*i),
            RedisFrame::BulkString(b) => redis_protocol::resp2::types::Frame::BulkString(b.clone().into()),
            RedisFrame::Array(v) => redis_protocol::resp2::types::Frame::Array(v.iter().map(to_protocol).collect::<Option<Vec<_>>>()?),
            RedisFrame::Null => redis_protocol::resp2::types::Frame::Null,
        },
    )
}

/// The outcome of reading one frame at a position of a buffer.
pub enum Parsed {
    /// A whole frame, and the position just past it.
    Complete(RedisFrame, usize),
    /// The buffer ends before the frame does.
    Incomplete,
    /// The bytes are not a frame.
    Invalid,
}

/// What `decode_one` owes for a frame `f` whose bytes agree with everything
/// from `pos` on: `f` itself where all of its bytes are there, a call for more
/// bytes where they are not.
pub open spec fn owed(buf: Seq<u8>, pos: int, f: Resp, r: Parsed) -> bool {
    if resp_bytes(f).len() <= buf.len() - pos {
        r matches Parsed::Complete(g, end) && g@ == f && end == pos + resp_bytes(f).len()
    } else {
        r is Incomplete
    }
}

/// Relies on redis-protocol's `resp2::decode::decode` on the bytes from `pos`
/// on: a frame and the count of bytes it took, at least the type byte and at
/// most what there is; nothing (`Ok(None)`) on no bytes; an error where the
/// first byte is not a type byte (`d_frame_type`). Its streaming parsers
/// (`d_parse_frame`: a line read to the first CRLF, lengths and integers read by
/// `parse`, a bulk body of the stated length, array elements in turn, error text
/// as UTF-8) read the bytes of a wire frame back as that frame, and report
/// `Incomplete` on any strict prefix of them. A number line that is no number
/// fails `str::parse` (`to_isize`, `to_i64`), which is an error (`etry!`).
#[verifier::external_body]
fn decode_one(buf: &Vec<u8>, pos: usize) -> (r: Parsed)
    requires
        pos <= buf.len(),
    ensures
        r matches Parsed::Complete(_, end) ==> pos < end <= buf.len(),
        pos == buf.len() ==> r is Incomplete,
        pos < buf.len() && !is_type_byte(buf@[pos as int]) ==> r is Invalid,
        bad_number_line(buf@, pos as int) ==> r is Invalid,
        forall|f: Resp|
            wire_frame(f) && #[trigger] agree(buf@.subrange(pos as int, buf.len() as int), resp_bytes(f))
                ==> owed(buf@, pos as int, f, r),
{
    let bytes = bytes::Bytes::copy_from_slice(&buf[pos..]);
    match redis_protocol::resp2::decode::decode(&bytes) {
        Ok(Some((f, n))) => Parsed::Complete(from_protocol(f), pos + n),
        Ok(None) => Parsed::Incomplete,
        Err(_) => Parsed::Invalid,
    }
}

/// Relies on redis-protocol's `resp2::encode::encode_bytes`, whose generators
/// write each frame as `resp_bytes` spells it: type byte, text or decimal
/// length, CRLF, payload; `$-1` and CRLF for null. `i64::MIN` is kept out, as
/// sizing it overflows (`integer_encode_len`). The buffer it fills may be
/// zero-padded past the frame, so only the size it returns is copied. `false`,
/// with nothing written, only where an error frame's text is not UTF-8
/// (`to_protocol`); the encoder's other failure, a bad offset, cannot arise on a
/// fresh buffer.
#[verifier::external_body]
fn encode_one(f: &RedisFrame, out: &mut Vec<u8>) -> (ok: bool)
    requires
        valid_frame(*f),
    ensures
        ok ==> final(out)@ == old(out)@ + frame_bytes(*f),
        !ok ==> final(out)@ == old(out)@,
        utf8_errors(f@) ==> ok,
{
    let frame = match to_protocol(f) {
        Some(frame) => frame,
        None => return false,
    };
    let mut buf = bytes::BytesMut::new();
    match redis_protocol::resp2::encode::encode_bytes(&mut buf, &frame) {
        Ok(n) => {
            out.extend_from_slice(&buf[..n]);
            true
        },
        Err(_) => false,
    }
}

#[derive(Debug, Clone, Copy, PartialEq, Eq)]
pub struct DecodeError {
    /// Where the frame that breaks the grammar starts.
    pub position: usize,
}

proof fn lemma_resps_bytes_split(s: Seq<Resp>, k: int)
    requires
        0 <= k <= s.len(),
    ensures
        resps_bytes(s) == resps_bytes(s.subrange(0, k)) + resps_bytes(s.subrange(k, s.len() as int)),
    decreases s.len() - k,
{
    if k == s.len() {
        assert(s.subrange(0, k) =~= s);
        assert(resps_bytes(s.subrange(k, s.len() as int)) =~= Seq::<u8>::empty()) by {
            assert(s.subrange(k, s.len() as int) =~= Seq::<Resp>::empty());
        }
        assert(resps_bytes(s) =~= resps_bytes(s) + Seq::<u8>::empty());
    } else {
        lemma_resps_bytes_split(s, k + 1);
        let t = s.subrange(k, s.len() as int);
        let u = s.subrange(k + 1, s.len() as int);
        lemma_resps_bytes_split_front(t);
        assert(t.subrange(1, t.len() as int) =~= u);
        assert(s.subrange(0, k + 1).subrange(0, k) =~= s.subrange(0, k));
        assert(t[0] == s[k]);
        assert(resps_bytes(s.subrange(0, k + 1)) == resps_bytes(s.subrange(0, k)) + resp_bytes(s[k]));
        assert(resps_bytes(s.subrange(0, k)) + resp_bytes(s[k]) + resps_bytes(u) =~= resps_bytes(
            s.subrange(0, k),
        ) + (resp_bytes(s[k]) + resps_bytes(u)));
    }
}

proof fn lemma_resps_bytes_split_front(t: Seq<Resp>)
    requires
        t.len() > 0,
    ensures
        resps_bytes(t) == resp_bytes(t[0]) + resps_bytes(t.subrange(1, t.len() as int)),
    decreases t.len(),
{
    if t.len() == 1 {
        assert(t.subrange(0, 0) =~= Seq::<Resp>::empty());
        assert(t.subrange(1, 1) =~= Seq::<Resp>::empty());
        assert(resps_bytes(t) =~= resp_bytes(t[0]) + resps_bytes(t.subrange(1, t.len() as int)));
    } else {
        let d = t.subrange(0, t.len() - 1);
        lemma_resps_bytes_split_front(d);
        assert(d.subrange(1, d.len() as int) =~= t.subrange(1, t.len() as int).subrange(
            0,
            t.len() - 2,
        ));
        let e = t.subrange(1, t.len() as int);
        assert(e[e.len() - 1] == t[t.len() - 1]);
        assert(resps_bytes(t) =~= resp_bytes(t[0]) + resps_bytes(t.subrange(1, t.len() as int)));
    }
}


/// `b` holds the wire frames `fs`, whole, then the first `k` bytes of one
/// more wire frame `g` (none of them when `k` is 0).
pub open spec fn frames_then_partial(b: Seq<u8>, fs: Seq<Resp>, g: Resp, k: int) -> bool {
    &&& wire_frames(fs)
    &&& wire_frame(g)
    &&& 0 <= k < resp_bytes(g).len()
    &&& b == resps_bytes(fs) + resp_bytes(g).subrange(0, k)
}

/// Takes every whole frame off the front of `buf`.
///
/// `Ok(None)` when not one whole frame is there yet, `buf` left alone; an error,
/// `buf` left alone, when the bytes are not frames (at once where the first byte
/// is no type byte or the first number line no number); otherwise the frames in order, with the bytes that follow
/// the last of them kept in `buf`. Bytes that hold whole wire frames and then
/// part of one more give exactly those frames and keep the part.
pub fn decode_frames(buf: &mut Vec<u8>) -> (r: Result<Option<Vec<RedisFrame>>, DecodeError>)
    ensures
        match r {
            Ok(Some(fs)) => {
                &&& fs.len() > 0
                &&& fs.len() + final(buf)@.len() <= old(buf)@.len()
                &&& final(buf)@ == old(buf)@.subrange(
                    old(buf)@.len() - final(buf)@.len(),
                    old(buf)@.len() as int,
                )
            },
            _ => final(buf)@ == old(buf)@,
        },
        old(buf)@.len() > 0 && !is_type_byte(old(buf)@[0]) ==> r is Err,
        bad_number_line(old(buf)@, 0) ==> r is Err,
        forall|fs: Seq<Resp>, g: Resp, k: int|
            #[trigger] frames_then_partial(old(buf)@, fs, g, k) ==> if fs.len() == 0 {
                r matches Ok(None)
            } else {
                r matches Ok(Some(ms)) && frames_model(ms@) == fs && final(buf)@ == resp_bytes(
                    g,
                ).subrange(0, k)
            },
{
    let ghost whole = buf@;
    let mut frames: Vec<RedisFrame> = Vec::new();
    let mut pos: usize = 0;
    loop
        invariant
            buf@ == whole,
            pos <= buf.len(),
            frames.len() <= pos,
            frames.len() == 0 ==> pos == 0,
            whole.len() > 0 && !is_type_byte(whole[0]) ==> frames.len() == 0,
            bad_number_line(whole, 0) ==> frames.len() == 0,
            forall|fs: Seq<Resp>, g: Resp, k: int|
                #[trigger] frames_then_partial(whole, fs, g, k) ==> frames.len() <= fs.len()
                    && frames_model(frames@) == fs.subrange(0, frames.len() as int)
                    && pos == resps_bytes(fs.subrange(0, frames.len() as int)).len(),
        ensures
            buf@ == whole,
            pos <= buf.len(),
            frames.len() <= pos,
            frames.len() == 0 ==> pos == 0,
            !(whole.len() > 0 && !is_type_byte(whole[0])),
            !bad_number_line(whole, 0),
            forall|fs: Seq<Resp>, g: Resp, k: int|
                #[trigger] frames_then_partial(whole, fs, g, k) ==> frames.len() == fs.len()
                    && frames_model(frames@) == fs.subrange(0, frames.len() as int)
                    && pos == resps_bytes(fs.subrange(0, frames.len() as int)).len(),
        decreases buf.len() - pos,
    {
        let ghost i = frames.len() as int;
        let ghost avail = buf@.subrange(pos as int, buf.len() as int);
        proof {
            lemma_frames_model(frames@);
            assert forall|fs: Seq<Resp>, g: Resp, k: int| #[trigger]
                frames_then_partial(whole, fs, g, k) implies if i < fs.len() {
                wire_frame(fs[i]) && agree(avail, resp_bytes(fs[i])) && resp_bytes(fs[i]).len()
                    <= avail.len()
            } else {
                wire_frame(g) && agree(avail, resp_bytes(g)) && resp_bytes(g).len() > avail.len()
            } by {
                lemma_resps_bytes_split(fs, i);
                let head = resps_bytes(fs.subrange(0, i));
                let rest = resps_bytes(fs.subrange(i, fs.len() as int));
                let part = resp_bytes(g).subrange(0, k);
                assert(whole =~= head + (rest + part));
                assert(avail =~= rest + part);
                if i < fs.len() {
                    lemma_wire_frames_index(fs, i);
                    lemma_resps_bytes_split_front(fs.subrange(i, fs.len() as int));
                    assert(fs.subrange(i, fs.len() as int)[0] == fs[i]);
                    let x = resp_bytes(fs[i]);
                    assert forall|j: int| 0 <= j < avail.len() && j < x.len() implies avail[j] == x[j] by {
                        assert(rest[j] == x[j]);
                    }
                } else {
                    assert(fs.subrange(i, fs.len() as int) =~= Seq::<Resp>::empty());
                    assert(rest =~= Seq::<u8>::empty());
                }
            }
        }
        match decode_one(buf, pos) {
            Parsed::Complete(f, e) => {
                proof {
                    let pre = frames_model(frames@);
                    assert(frames@.push(f).subrange(0, frames.len() as int) =~= frames@);
                    assert(pre.push(frame_model(f)).subrange(0, pre.len() as int) =~= pre);
                    assert forall|fs: Seq<Resp>, g: Resp, k: int| #[trigger]
                        frames_then_partial(whole, fs, g, k) implies i + 1 <= fs.len()
                        && pre.push(frame_model(f)) == fs.subrange(0, i + 1)
                        && e == resps_bytes(fs.subrange(0, i + 1)).len() by {
                        if i < fs.len() {
                            assert(owed(buf@, pos as int, fs[i], Parsed::Complete(f, e)));
                            assert(fs.subrange(0, i + 1).subrange(0, i) =~= fs.subrange(0, i));
                            assert(fs.subrange(0, i + 1) =~= fs.subrange(0, i).push(fs[i]));
                        } else {
                            assert(owed(buf@, pos as int, g, Parsed::Complete(f, e)));
                        }
                    }
                }
                frames.push(f);
                pos = e;
            },
            Parsed::Incomplete => {
                proof {
                    assert forall|fs: Seq<Resp>, g: Resp, k: int| #[trigger]
                        frames_then_partial(whole, fs, g, k) implies i == fs.len() by {
                        if i < fs.len() {
                            assert(owed(buf@, pos as int, fs[i], Parsed::Incomplete));
                        }
                    }
                }
                break ;
            },
            Parsed::Invalid => {
                proof {
                    assert forall|fs: Seq<Resp>, g: Resp, k: int| #[trigger]
                        frames_then_partial(whole, fs, g, k) implies false by {
                        if i < fs.len() {
                            assert(owed(buf@, pos as int, fs[i], Parsed::Invalid));
                        } else {
                            assert(owed(buf@, pos as int, g, Parsed::Invalid));
                        }
                    }
                }
                return Err(DecodeError { position: pos });
            },
        }
    }
    if frames.len() == 0 {
        return Ok(None);
    }
    let rest = copy_range(buf, pos, buf.len());
    *buf = rest;
    proof {
        assert forall|fs: Seq<Resp>, g: Resp, k: int| #[trigger]
            frames_then_partial(whole, fs, g, k) implies buf@ == resp_bytes(g).subrange(0, k)
            && frames_model(frames@) == fs by {
            assert(fs.subrange(0, fs.len() as int) =~= fs);
            assert(whole.subrange(pos as int, whole.len() as int) =~= resp_bytes(g).subrange(0, k));
        }
    }
    Ok(Some(frames))
}

/// Appends the serialization of `f`, or fails with nothing written: where `f`
/// is not a valid frame, or the encoder refuses it (an error frame whose text
/// is not UTF-8). A wire frame is always written.
pub fn encode_frame(f: &RedisFrame, out: &mut Vec<u8>) -> (r: Result<(), EncodeError>)
    ensures
        !valid_frame(*f) ==> r is Err,
        wire_frame(f@) ==> r is Ok,
        r is Ok ==> final(out)@ == old(out)@ + frame_bytes(*f),
        r is Err ==> final(out)@ == old(out)@,
{
    if !is_valid_frame(f) {
        return Err(EncodeError::UnrepresentableFrame);
    }
    if encode_one(f, out) {
        Ok(())
    } else {
        Err(EncodeError::UnrepresentableFrame)
    }
}

/// A value that the target wire format cannot carry.
#[derive(Debug, Clone, Copy, PartialEq, Eq)]
pub enum EncodeError {
    /// A message whose frame belongs to another protocol.
    UnsupportedFrame,
    /// A frame the encoder cannot write: text holding CRLF, an error text that
    /// is not UTF-8, or `i64::MIN`.
    UnrepresentableFrame,
    /// A tabular response that cannot be rebuilt from what is known of its query.
    MissingQueryMetadata,
    /// A cell value that the tabular format has no encoding for.
    UnsupportedCell,
}

/// Round trip: the bytes of a wire frame, with nothing after them, are that
/// one frame whole and no partial one, so `decode_frames` gives back exactly
/// that frame and leaves the buffer empty; `encode_frame` writes those bytes.
pub proof fn lemma_round_trip(f: Resp)
    requires
        wire_frame(f),
    ensures
        frames_then_partial(resp_bytes(f), seq![f], Resp::Nil, 0),
        resp_bytes(Resp::Nil).subrange(0, 0) == Seq::<u8>::empty(),
{
    let s = seq![f];
    assert(s.subrange(0, 0) =~= Seq::<Resp>::empty());
    assert(resps_bytes(Seq::<Resp>::empty()) == Seq::<u8>::empty());
    assert(valid_resps(Seq::<Resp>::empty()));
    assert(utf8_errors_all(Seq::<Resp>::empty()));
    assert(resps_bytes(s) =~= resp_bytes(f));
    assert(resp_bytes(Resp::Nil).subrange(0, 0) =~= Seq::<u8>::empty());
    assert(resp_bytes(f) =~= resps_bytes(s) + resp_bytes(Resp::Nil).subrange(0, 0));
    assert(valid_resps(s));
    assert(utf8_errors_all(s));
    assert(resp_bytes(Resp::Nil) =~= null_bytes());
}

} // verus!
