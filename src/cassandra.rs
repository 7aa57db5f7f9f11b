//! Rebuilding a tabular result-set response from a semantic `Rows` value.
use vstd::prelude::*;
use crate::resp::{EncodeError, copy_bytes};
use crate::message::{
    MessageDetails, MessageValue, QueryResponse, RawFrame, CassandraFrame, Val, value_model,
    values_model, rows_model,
};

verus! {

broadcast use vstd::std_specs::vec::group_vec_axioms;

/// The version byte of a response frame of protocol version 4.
pub const RESPONSE_VERSION: u8 = 0x84;

/// The opcode of a RESULT frame.
pub const RESULT_OPCODE: u8 = 0x08;

/// The result kind of a rows result.
pub const ROWS_KIND: u64 = 2;

/// The type id of an ASCII column.
pub const ASCII_TYPE: u64 = 1;

/// The first second that RFC 2822 text can carry: 0000-01-01T00:00:00Z.
pub const RFC2822_MIN_SECS: i64 = -62167219200;

/// The last second that RFC 2822 text can carry: 9999-12-31T23:59:59Z.
pub const RFC2822_MAX_SECS: i64 = 253402300799;

/// The RFC 2822 text of the UTC time `t` seconds after the Unix epoch.
pub uninterp spec fn rfc2822_text(t: int) -> Seq<u8>;

/// Relies on chrono's `DateTime::from_timestamp` and `DateTime::to_rfc2822`:
/// the UTC time `t` seconds after the epoch as RFC 2822 text, which depends on
/// `t` alone. `to_rfc2822` panics outside years 0 to 9999, which `requires` keeps out.
#[verifier::external_body]
fn rfc2822(t: i64) -> (r: Vec<u8>)
    requires
        RFC2822_MIN_SECS <= t <= RFC2822_MAX_SECS,
    ensures
        r@ == rfc2822_text(t as int),
{
    match chrono::DateTime::from_timestamp(t, 0) {
        Some(d) => d.to_rfc2822().into_bytes(),
        None => Vec::new(),
    }
}

/// `n` as `w` big-endian bytes, taken modulo 256 to the `w`.
pub open spec fn be_bytes(n: nat, w: nat) -> Seq<u8>
    decreases w,
{
    if w == 0 {
        Seq::empty()
    } else {
        be_bytes(n / 256, (w - 1) as nat).push((n % 256) as u8)
    }
}

/// A signed integer as `w` big-endian two's-complement bytes.
pub open spec fn be_signed(i: int, w: nat) -> Seq<u8> {
    if i >= 0 {
        be_bytes(i as nat, w)
    } else {
        be_bytes((i + pow256(w)) as nat, w)
    }
}

pub open spec fn pow256(w: nat) -> int
    decreases w,
{
    if w == 0 {
        1
    } else {
        256 * pow256((w - 1) as nat)
    }
}

/// A protocol `[string]`: a two-byte length, then the bytes.
pub open spec fn short_string(s: Seq<u8>) -> Seq<u8> {
    be_bytes(s.len(), 2) + s
}

/// A cell as protocol `[bytes]`: a four-byte length, then the payload; null
/// is the length -1 with no payload, a timestamp its RFC 2822 text. Values with no cell encoding give `None`.
pub open spec fn cell_bytes(v: Val) -> Option<Seq<u8>> {
    match v {
        Val::Nil => Some(be_signed(-1, 4)),
        Val::Bytes(x) => Some(be_bytes(x.len(), 4) + x),
        Val::Text(x) => Some(be_bytes(x.len(), 4) + x),
        Val::Int(i, _) => Some(be_bytes(8, 4) + be_signed(i, 8)),
        Val::Bool(b) => Some(be_bytes(4, 4) + be_bytes(if b { 1 } else { 0 }, 4)),
        Val::Time(t) => Some(be_bytes(rfc2822_text(t).len(), 4) + rfc2822_text(t)),
        _ => None,
    }
}

/// A value that has a cell encoding within the protocol's length limit.
pub open spec fn cell_ok(v: Val) -> bool {
    match v {
        Val::Nil | Val::Int(_, _) | Val::Bool(_) => true,
        Val::Bytes(x) => x.len() <= i32::MAX,
        Val::Text(x) => x.len() <= i32::MAX,
        Val::Time(t) => RFC2822_MIN_SECS <= t <= RFC2822_MAX_SECS && rfc2822_text(t).len()
            <= i32::MAX,
        _ => false,
    }
}

/// The cells of a row, one after another.
pub open spec fn row_bytes(row: Seq<Val>) -> Seq<u8>
    decreases row.len(),
{
    if row.len() == 0 {
        Seq::empty()
    } else {
        row_bytes(row.subrange(0, row.len() - 1)) + cell_bytes(row[row.len() - 1])->Some_0
    }
}

pub open spec fn rows_bytes(rows: Seq<Seq<Val>>) -> Seq<u8>
    decreases rows.len(),
{
    if rows.len() == 0 {
        Seq::empty()
    } else {
        rows_bytes(rows.subrange(0, rows.len() - 1)) + row_bytes(rows[rows.len() - 1])
    }
}

/// The column specs: keyspace, table, column name, and the ASCII type id, per column.
pub open spec fn col_specs(ks: Seq<u8>, table: Seq<u8>, cols: Seq<Seq<u8>>) -> Seq<u8>
    decreases cols.len(),
{
    if cols.len() == 0 {
        Seq::empty()
    } else {
        col_specs(ks, table, cols.subrange(0, cols.len() - 1)) + short_string(ks) + short_string(
            table,
        ) + short_string(cols[cols.len() - 1]) + be_bytes(ASCII_TYPE as nat, 2)
    }
}

/// The body of a rows result: kind, metadata (no flags, column count, column
/// specs), row count, rows.
pub open spec fn rows_result_body(
    ks: Seq<u8>,
    table: Seq<u8>,
    cols: Seq<Seq<u8>>,
    rows: Seq<Seq<Val>>,
) -> Seq<u8> {
    be_bytes(ROWS_KIND as nat, 4) + be_bytes(0, 4) + be_bytes(cols.len(), 4) + col_specs(
        ks,
        table,
        cols,
    ) + be_bytes(rows.len(), 4) + rows_bytes(rows)
}

/// Both absent, or both present with the same bytes.
pub open spec fn same_bytes(a: Option<Vec<u8>>, b: Option<Vec<u8>>) -> bool {
    match (a, b) {
        (Some(x), Some(y)) => x@ == y@,
        (None, None) => true,
        _ => false,
    }
}

/// What a rows result can be built from: a query frame of the tabular protocol,
/// a keyspace and a table, the column names, and rows of those columns.
pub open spec fn rebuildable(resp: QueryResponse) -> bool {
    &&& resp.result matches Some(MessageValue::Rows(rows))
    &&& resp.matching_query matches Some(q)
    &&& q.original is Cassandra
    &&& q.details matches MessageDetails::Query(qm)
    &&& qm.projection matches Some(proj)
    &&& qm.namespace@.len() >= 2
    &&& qm.namespace@[0]@.len() <= u16::MAX
    &&& qm.namespace@[1]@.len() <= u16::MAX
    &&& proj@.len() <= i32::MAX
    &&& (forall|i: int| 0 <= i < proj@.len() ==> (#[trigger] proj@[i])@.len() <= u16::MAX)
    &&& rows@.len() <= i32::MAX
    &&& (forall|r: int|
        0 <= r < rows@.len() ==> (#[trigger] rows@[r])@.len() == proj@.len() && (forall|c: int|
            0 <= c < rows@[r]@.len() ==> cell_ok(value_model(#[trigger] rows@[r]@[c]))))
}

/// Appends `n` as `w` big-endian bytes.
fn write_be(n: u64, w: usize, out: &mut Vec<u8>)
    requires
        w <= 8,
    ensures
        final(out)@ == old(out)@ + be_bytes(n as nat, w as nat),
    decreases w,
{
    if w > 0 {
        write_be(n / 256, w - 1, out);
        out.push((n % 256) as u8);
        assert(final(out)@ =~= old(out)@ + be_bytes(n as nat, w as nat));
    } else {
        assert(final(out)@ =~= old(out)@ + be_bytes(n as nat, w as nat));
    }
}

fn write_bytes_to(b: &Vec<u8>, out: &mut Vec<u8>)
    ensures
        final(out)@ == old(out)@ + b@,
{
    let mut i: usize = 0;
    while i < b.len()
        invariant
            i <= b.len(),
            out@ == old(out)@ + b@.subrange(0, i as int),
        decreases b.len() - i,
    {
        out.push(b[i]);
        i = i + 1;
        assert(out@ =~= old(out)@ + b@.subrange(0, i as int));
    }
    assert(b@.subrange(0, b.len() as int) =~= b@);
}

fn write_short_string(s: &Vec<u8>, out: &mut Vec<u8>)
    requires
        s@.len() <= u16::MAX,
    ensures
        final(out)@ == old(out)@ + short_string(s@),
{
    write_be(s.len() as u64, 2, out);
    write_bytes_to(s, out);
    assert(final(out)@ =~= old(out)@ + short_string(s@));
}

proof fn lemma_pow256_8()
    ensures
        pow256(8) == 0x1_0000_0000_0000_0000,
        pow256(4) == 0x1_0000_0000,
{
    reveal_with_fuel(pow256, 9);
}

/// Appends one cell.
fn write_cell(v: &MessageValue, out: &mut Vec<u8>)
    requires
        cell_ok(v@),
    ensures
        final(out)@ == old(out)@ + cell_bytes(v@)->Some_0,
{
    proof {
        lemma_pow256_8();
    }
    match v {
        MessageValue::NULL => {
            write_be(0xffff_ffffu64, 4, out);
        },
        MessageValue::Bytes(x) => {
            write_be(x.len() as u64, 4, out);
            write_bytes_to(x, out);
        },
        MessageValue::Strings(x) => {
            write_be(x.len() as u64, 4, out);
            write_bytes_to(x, out);
        },
        MessageValue::Integer(i, _) => {
            write_be(8, 4, out);
            let u: u64 = if *i >= 0 {
                *i as u64
            } else {
                ((*i + 0x7fff_ffff_ffff_ffff + 1) as u64) + 0x8000_0000_0000_0000u64
            };
            assert(be_signed(*i as int, 8) == be_bytes(u as nat, 8));
            write_be(u, 8, out);
        },
        MessageValue::Boolean(b) => {
            write_be(4, 4, out);
            write_be(if *b { 1 } else { 0 }, 4, out);
        },
        MessageValue::Timestamp(t) => {
            let text = rfc2822(*t);
            write_be(text.len() as u64, 4, out);
            write_bytes_to(&text, out);
        },
        _ => {},
    }
    assert(final(out)@ =~= old(out)@ + cell_bytes(v@)->Some_0);
}

/// Whether a value has a cell encoding within the length limit.
fn is_cell_ok(v: &MessageValue) -> (r: bool)
    ensures
        r == cell_ok(v@),
{
    match v {
        MessageValue::NULL => true,
        MessageValue::Integer(_, _) => true,
        MessageValue::Boolean(_) => true,
        MessageValue::Bytes(x) => x.len() <= 0x7fff_ffff,
        MessageValue::Strings(x) => x.len() <= 0x7fff_ffff,
        MessageValue::Timestamp(t) => RFC2822_MIN_SECS <= *t && *t <= RFC2822_MAX_SECS
            && rfc2822(*t).len() <= 0x7fff_ffff,
        _ => false,
    }
}

/// Rebuilds a rows result frame answering the query that `resp` points back to:
/// columns named by the query's projection, in the keyspace and table of its
/// namespace, typed ASCII; each row's values in their cell encodings. The frame
/// takes the query frame's flags, stream and tracing id.
///
/// Fails, writing nothing, when the response holds no rows, when there is no
/// matching query of the tabular protocol, when it lacks a projection or a
/// keyspace and table, or when a row does not fit the columns.
pub fn build_cassandra_response_frame(resp: QueryResponse) -> (r: Result<CassandraFrame, EncodeError>)
    ensures
        r is Ok <==> rebuildable(resp),
        r matches Ok(f) ==> ({
            let q = resp.matching_query->Some_0;
            let qf = q.original->Cassandra_0;
            let qm = q.details->Query_0;
            let rows = resp.result->Some_0->Rows_0;
            &&& f.version == RESPONSE_VERSION
            &&& f.opcode == RESULT_OPCODE
            &&& f.flags == qf.flags
            &&& f.stream == qf.stream
            &&& same_bytes(f.tracing_id, qf.tracing_id)
            &&& f.body@ == rows_result_body(
                qm.namespace@[0]@,
                qm.namespace@[1]@,
                qm.projection->Some_0@.map_values(|c: Vec<u8>| c@),
                rows_model(rows@),
            )
        }),
{
    let rows = match &resp.result {
        Some(MessageValue::Rows(rows)) => rows,
        _ => {
            return Err(EncodeError::MissingQueryMetadata);
        },
    };
    let query = match &resp.matching_query {
        Some(q) => q,
        None => {
            return Err(EncodeError::MissingQueryMetadata);
        },
    };
    let query_frame = match &query.original {
        RawFrame::Cassandra(f) => f,
        _ => {
            return Err(EncodeError::MissingQueryMetadata);
        },
    };
    let qm = match &query.details {
        MessageDetails::Query(qm) => qm,
        _ => {
            return Err(EncodeError::MissingQueryMetadata);
        },
    };
    let proj = match &qm.projection {
        Some(p) => p,
        None => {
            return Err(EncodeError::MissingQueryMetadata);
        },
    };
    if qm.namespace.len() < 2 {
        return Err(EncodeError::MissingQueryMetadata);
    }
    let ks = &qm.namespace[0];
    let table = &qm.namespace[1];
    if ks.len() > 0xffff || table.len() > 0xffff || proj.len() > 0x7fff_ffff || rows.len()
        > 0x7fff_ffff {
        assert(ks@.len() > u16::MAX || table@.len() > u16::MAX || proj@.len() > i32::MAX
            || rows@.len() > i32::MAX);
        return Err(EncodeError::MissingQueryMetadata);
    }
    let mut i: usize = 0;
    while i < proj.len()
        invariant
            resp.result == Some(MessageValue::Rows(*rows)),
            resp.matching_query == Some(*query),
            query.details == MessageDetails::Query(*qm),
            qm.projection == Some(*proj),
            i <= proj.len(),
            forall|j: int| 0 <= j < i ==> (#[trigger] proj@[j])@.len() <= u16::MAX,
        decreases proj.len() - i,
    {
        if proj[i].len() > 0xffff {
            return Err(EncodeError::MissingQueryMetadata);
        }
        i = i + 1;
    }
    let mut r: usize = 0;
    while r < rows.len()
        invariant
            resp.result == Some(MessageValue::Rows(*rows)),
            resp.matching_query == Some(*query),
            query.details == MessageDetails::Query(*qm),
            qm.projection == Some(*proj),
            r <= rows.len(),
            forall|k: int|
                0 <= k < r ==> (#[trigger] rows@[k])@.len() == proj@.len() && (forall|c: int|
                    0 <= c < rows@[k]@.len() ==> cell_ok(value_model(#[trigger] rows@[k]@[c]))),
        decreases rows.len() - r,
    {
        let row = &rows[r];
        if row.len() != proj.len() {
            assert(rows@[r as int]@.len() != proj@.len());
            return Err(EncodeError::UnsupportedCell);
        }
        let mut c: usize = 0;
        while c < row.len()
            invariant
                resp.result == Some(MessageValue::Rows(*rows)),
                r < rows.len(),
                *row == rows@[r as int],
                c <= row.len(),
                forall|j: int| 0 <= j < c ==> cell_ok(value_model(#[trigger] row@[j])),
            decreases row.len() - c,
        {
            if !is_cell_ok(&row[c]) {
                assert(!cell_ok(value_model(rows@[r as int]@[c as int])));
                return Err(EncodeError::UnsupportedCell);
            }
            c = c + 1;
        }
        r = r + 1;
    }
    let ghost cols = proj@.map_values(|c: Vec<u8>| c@);
    let mut body: Vec<u8> = Vec::new();
    write_be(ROWS_KIND, 4, &mut body);
    write_be(0, 4, &mut body);
    write_be(proj.len() as u64, 4, &mut body);
    let ghost head = body@;
    let mut i: usize = 0;
    while i < proj.len()
        invariant
            i <= proj.len(),
            ks@.len() <= u16::MAX,
            table@.len() <= u16::MAX,
            forall|j: int| 0 <= j < proj.len() ==> (#[trigger] proj@[j])@.len() <= u16::MAX,
            cols == proj@.map_values(|c: Vec<u8>| c@),
            body@ == head + col_specs(ks@, table@, cols.subrange(0, i as int)),
        decreases proj.len() - i,
    {
        write_short_string(ks, &mut body);
        write_short_string(table, &mut body);
        write_short_string(&proj[i], &mut body);
        write_be(ASCII_TYPE, 2, &mut body);
        proof {
            assert(cols.subrange(0, i + 1).subrange(0, i as int) =~= cols.subrange(0, i as int));
        }
        i = i + 1;
    }
    assert(cols.subrange(0, proj.len() as int) =~= cols);
    write_be(rows.len() as u64, 4, &mut body);
    let ghost head2 = body@;
    let mut r: usize = 0;
    while r < rows.len()
        invariant
            r <= rows.len(),
            forall|k: int|
                0 <= k < rows.len() ==> (#[trigger] rows@[k])@.len() == proj@.len() && (forall|c: int|
                    0 <= c < rows@[k]@.len() ==> cell_ok(value_model(#[trigger] rows@[k]@[c]))),
            body@ == head2 + rows_bytes(rows_model(rows@.subrange(0, r as int))),
        decreases rows.len() - r,
    {
        let row = &rows[r];
        let ghost before = body@;
        let mut c: usize = 0;
        while c < row.len()
            invariant
                c <= row.len(),
                forall|j: int| 0 <= j < row.len() ==> cell_ok(value_model(#[trigger] row@[j])),
                body@ == before + row_bytes(values_model(row@.subrange(0, c as int))),
            decreases row.len() - c,
        {
            write_cell(&row[c], &mut body);
            proof {
                let pre = values_model(row@.subrange(0, c as int));
                assert(row@.subrange(0, c + 1).subrange(0, c as int) =~= row@.subrange(0, c as int));
                assert(pre.push(value_model(row@[c as int])).subrange(0, pre.len() as int) =~= pre);
            }
            c = c + 1;
        }
        proof {
            assert(row@.subrange(0, row.len() as int) =~= row@);
            let pre = rows_model(rows@.subrange(0, r as int));
            assert(rows@.subrange(0, r + 1).subrange(0, r as int) =~= rows@.subrange(0, r as int));
            assert(pre.push(values_model(rows@[r as int]@)).subrange(0, pre.len() as int) =~= pre);
        }
        r = r + 1;
    }
    assert(rows@.subrange(0, rows.len() as int) =~= rows@);
    proof {
        lemma_rows_model_len(rows@);
    }
    let tracing_id = match &query_frame.tracing_id {
        Some(t) => Some(copy_bytes(t)),
        None => None,
    };
    Ok(CassandraFrame {
        version: RESPONSE_VERSION,
        flags: query_frame.flags,
        stream: query_frame.stream,
        opcode: RESULT_OPCODE,
        tracing_id,
        body,
    })
}

proof fn lemma_rows_model_len(s: Seq<Vec<MessageValue>>)
    ensures
        rows_model(s).len() == s.len(),
    decreases s.len(),
{
    if s.len() > 0 {
        lemma_rows_model_len(s.subrange(0, s.len() - 1));
    }
}

/// The size of a frame header: version, flags, stream, opcode, body length.
pub const HEADER_LEN: usize = 9;

/// The body length that a header at the front of `b` declares: four
/// big-endian bytes after version, flags, stream and opcode.
pub open spec fn declared_body_len(b: Seq<u8>) -> int {
    ((b[5] as int * 256 + b[6] as int) * 256 + b[7] as int) * 256 + b[8] as int
}

/// The length of the whole frame at the front of `buf`, once its header is there.
pub fn frame_length(buf: &Vec<u8>) -> (r: Option<u64>)
    ensures
        r is None <==> buf.len() < HEADER_LEN,
        r matches Some(n) ==> n == HEADER_LEN + declared_body_len(buf@),
{
    if buf.len() < HEADER_LEN {
        return None;
    }
    let body: u64 = ((buf[5] as u64 * 256 + buf[6] as u64) * 256 + buf[7] as u64) * 256
        + buf[8] as u64;
    Some(HEADER_LEN as u64 + body)
}

/// One decision of the header-first tabular decoder.
#[derive(Debug, Clone, Copy, PartialEq, Eq, Structural)]
pub enum FrameStep {
    /// Not all of the frame is there: wait, keeping its length once the header was read.
    Wait(Option<u64>),
    /// The frame is whole: take this many bytes from the front.
    Take(u64),
}

/// The length of the pending frame: the one kept from an earlier call, else
/// the one the header at the front of `b` declares, once the header is there.
pub open spec fn pending_len(known: Option<u64>, b: Seq<u8>) -> Option<int> {
    match known {
        Some(n) => Some(n as int),
        None => if b.len() >= HEADER_LEN {
            Some(HEADER_LEN + declared_body_len(b))
        } else {
            None
        },
    }
}

/// Decides, from the length kept across calls, the front bytes received
/// (`header`, at least the header when there is one) and how many bytes are
/// there in all, whether a whole frame can be taken; the header is read only
/// when no length is kept.
pub fn frame_step(known: Option<u64>, header: &Vec<u8>, available: usize) -> (r: FrameStep)
    ensures
        match pending_len(known, header@) {
            None => r == FrameStep::Wait(None),
            Some(n) => if available >= n {
                r == FrameStep::Take(n as u64)
            } else {
                r == FrameStep::Wait(Some(n as u64))
            },
        },
{
    let n: u64 = match known {
        Some(n) => n,
        None => match frame_length(header) {
            Some(n) => n,
            None => {
                return FrameStep::Wait(None);
            },
        },
    };
    if available as u64 >= n {
        FrameStep::Take(n)
    } else {
        FrameStep::Wait(Some(n))
    }
}

} // verus!
