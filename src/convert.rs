//! Conversions between key-value frames and protocol-independent values.
use vstd::prelude::*;
use crate::resp::{RedisFrame, Resp, frame_model, frames_model, copy_bytes};
use crate::message::{MessageValue, Val, IntSize, value_model, values_model, fields_model, rows_model};

verus! {

broadcast use vstd::std_specs::vec::group_vec_axioms;

/// The value that a frame stands for.
pub open spec fn resp_to_val(r: Resp) -> Val
    decreases r,
{
    match r {
        Resp::Simple(s) => Val::Text(s),
        Resp::Fail(s) => Val::Text(s),
        Resp::Int(i) => Val::Int(i, IntSize::I64),
        Resp::Bulk(b) => Val::Bytes(b),
        Resp::Arr(v) => Val::List(resps_to_vals(v)),
        Resp::Nil => Val::Nil,
    }
}

pub open spec fn resps_to_vals(s: Seq<Resp>) -> Seq<Val>
    decreases s,
{
    if s.len() == 0 {
        Seq::empty()
    } else {
        resps_to_vals(s.subrange(0, s.len() - 1)).push(resp_to_val(s[s.len() - 1]))
    }
}

/// The frame that carries a value.
pub open spec fn val_to_resp(v: Val) -> Resp
    decreases v,
{
    match v {
        Val::Nil => Resp::Nil,
        Val::Bytes(b) => Resp::Bulk(b),
        Val::Text(s) => Resp::Simple(s),
        Val::Int(i, _) => Resp::Int(i),
        Val::Bool(b) => Resp::Int(if b { 1 } else { 0 }),
        Val::Time(t) => Resp::Int(t),
        Val::List(l) => Resp::Arr(vals_to_resps(l)),
        Val::Doc(d) => Resp::Arr(doc_to_resps(d)),
        Val::Rows(r) => Resp::Arr(rows_to_resps(r)),
    }
}

pub open spec fn vals_to_resps(s: Seq<Val>) -> Seq<Resp>
    decreases s,
{
    if s.len() == 0 {
        Seq::empty()
    } else {
        vals_to_resps(s.subrange(0, s.len() - 1)).push(val_to_resp(s[s.len() - 1]))
    }
}

/// A document as a flat array: each name as a bulk string, then its value.
pub open spec fn doc_to_resps(d: Seq<(Seq<u8>, Val)>) -> Seq<Resp>
    decreases d,
{
    if d.len() == 0 {
        Seq::empty()
    } else {
        doc_to_resps(d.subrange(0, d.len() - 1)).push(Resp::Bulk(d[d.len() - 1].0)).push(
            val_to_resp(d[d.len() - 1].1),
        )
    }
}

/// Rows as an array of arrays.
pub open spec fn rows_to_resps(r: Seq<Seq<Val>>) -> Seq<Resp>
    decreases r,
{
    if r.len() == 0 {
        Seq::empty()
    } else {
        rows_to_resps(r.subrange(0, r.len() - 1)).push(Resp::Arr(vals_to_resps(r[r.len() - 1])))
    }
}

/// The value of a frame, as `resp_to_val` gives it.
pub fn frame_to_value(f: &RedisFrame) -> (v: MessageValue)
    ensures
        v@ == resp_to_val(f@),
    decreases f,
{
    match f {
        RedisFrame::SimpleString(s) => MessageValue::Strings(copy_bytes(s)),
        RedisFrame::Error(s) => MessageValue::Strings(copy_bytes(s)),
        RedisFrame::Integer(i) => MessageValue::Integer(*i, IntSize::I64),
        RedisFrame::BulkString(b) => MessageValue::Bytes(copy_bytes(b)),
        RedisFrame::Null => MessageValue::NULL,
        RedisFrame::Array(a) => {
            let mut out: Vec<MessageValue> = Vec::new();
            let mut i: usize = 0;
            while i < a.len()
                invariant
                    i <= a.len(),
                    *f == RedisFrame::Array(*a),
                    values_model(out@) == resps_to_vals(frames_model(a@.subrange(0, i as int))),
                decreases a.len() - i,
            {
                proof {
                    let ff = *f;
                    let vv = ff->Array_0;
                    assert(decreases_to!(ff => vv));
                    assert(decreases_to!(vv => vv@));
                    assert(decreases_to!(ff => vv@[i as int]));
                }
                let x = frame_to_value(&a[i]);
                proof {
                    let pre = frames_model(a@.subrange(0, i as int));
                    assert(a@.subrange(0, i + 1).subrange(0, i as int) =~= a@.subrange(0, i as int));
                    assert(pre.push(frame_model(a@[i as int])).subrange(0, pre.len() as int) =~= pre);
                    assert(out@.push(x).subrange(0, out.len() as int) =~= out@);
                }
                out.push(x);
                i = i + 1;
            }
            assert(a@.subrange(0, a.len() as int) =~= a@);
            MessageValue::List(out)
        },
    }
}

/// A copy of a frame.
pub fn duplicate_frame(f: &RedisFrame) -> (g: RedisFrame)
    ensures
        g@ == f@,
    decreases f,
{
    match f {
        RedisFrame::SimpleString(s) => RedisFrame::SimpleString(copy_bytes(s)),
        RedisFrame::Error(s) => RedisFrame::Error(copy_bytes(s)),
        RedisFrame::Integer(i) => RedisFrame::Integer(*i),
        RedisFrame::BulkString(b) => RedisFrame::BulkString(copy_bytes(b)),
        RedisFrame::Null => RedisFrame::Null,
        RedisFrame::Array(a) => {
            let mut out: Vec<RedisFrame> = Vec::new();
            let mut i: usize = 0;
            while i < a.len()
                invariant
                    i <= a.len(),
                    *f == RedisFrame::Array(*a),
                    frames_model(out@) == frames_model(a@.subrange(0, i as int)),
                decreases a.len() - i,
            {
                proof {
                    let ff = *f;
                    let vv = ff->Array_0;
                    assert(decreases_to!(ff => vv));
                    assert(decreases_to!(vv => vv@));
                    assert(decreases_to!(ff => vv@[i as int]));
                }
                let x = duplicate_frame(&a[i]);
                proof {
                    assert(a@.subrange(0, i + 1).subrange(0, i as int) =~= a@.subrange(0, i as int));
                    assert(out@.push(x).subrange(0, out.len() as int) =~= out@);
                }
                out.push(x);
                i = i + 1;
            }
            assert(a@.subrange(0, a.len() as int) =~= a@);
            RedisFrame::Array(out)
        },
    }
}

/// The frames of a sequence of values, in order.
pub fn values_to_frames(vs: &Vec<MessageValue>) -> (r: Vec<RedisFrame>)
    ensures
        frames_model(r@) == vals_to_resps(values_model(vs@)),
    decreases vs@,
{
    let mut out: Vec<RedisFrame> = Vec::new();
    let mut i: usize = 0;
    while i < vs.len()
        invariant
            i <= vs.len(),
            frames_model(out@) == vals_to_resps(values_model(vs@.subrange(0, i as int))),
        decreases vs.len() - i,
    {
        proof {
            assert(decreases_to!(*vs => vs@));
            assert(decreases_to!(*vs => vs@[i as int]));
        }
        let x = value_to_frame(&vs[i]);
        proof {
            let pre = values_model(vs@.subrange(0, i as int));
            assert(vs@.subrange(0, i + 1).subrange(0, i as int) =~= vs@.subrange(0, i as int));
            assert(pre.push(value_model(vs@[i as int])).subrange(0, pre.len() as int) =~= pre);
            assert(out@.push(x).subrange(0, out.len() as int) =~= out@);
        }
        out.push(x);
        i = i + 1;
    }
    assert(vs@.subrange(0, vs.len() as int) =~= vs@);
    out
}

/// The frame that carries a value, as `val_to_resp` gives it.
pub fn value_to_frame(v: &MessageValue) -> (f: RedisFrame)
    ensures
        f@ == val_to_resp(v@),
    decreases v, 0nat,
{
    match v {
        MessageValue::NULL => RedisFrame::Null,
        MessageValue::Bytes(b) => RedisFrame::BulkString(copy_bytes(b)),
        MessageValue::Strings(s) => RedisFrame::SimpleString(copy_bytes(s)),
        MessageValue::Integer(i, _) => RedisFrame::Integer(*i),
        MessageValue::Boolean(b) => RedisFrame::Integer(if *b { 1 } else { 0 }),
        MessageValue::Timestamp(t) => RedisFrame::Integer(*t),
        MessageValue::List(l) => {
            proof {
                let vv = *v;
                assert(decreases_to!(vv => vv->List_0));
            }
            RedisFrame::Array(values_to_frames(l))
        },
        MessageValue::Document(d) => {
            let mut out: Vec<RedisFrame> = Vec::new();
            let mut i: usize = 0;
            while i < d.len()
                invariant
                    i <= d.len(),
                    *v == MessageValue::Document(*d),
                    frames_model(out@) == doc_to_resps(fields_model(d@.subrange(0, i as int))),
                decreases d.len() - i,
            {
                proof {
                    let vv = *v;
                    let dd = vv->Document_0;
                    assert(decreases_to!(vv => dd));
                    assert(decreases_to!(dd => dd@));
                    assert(decreases_to!(vv => dd@[i as int].value));
                }
                let name = RedisFrame::BulkString(copy_bytes(&d[i].name));
                let x = value_to_frame(&d[i].value);
                proof {
                    let pre = fields_model(d@.subrange(0, i as int));
                    assert(d@.subrange(0, i + 1).subrange(0, i as int) =~= d@.subrange(0, i as int));
                    assert(pre.push((d@[i as int].name@, value_model(d@[i as int].value))).subrange(
                        0,
                        pre.len() as int,
                    ) =~= pre);
                    let o1 = out@.push(name);
                    assert(o1.subrange(0, out.len() as int) =~= out@);
                    assert(o1.push(x).subrange(0, o1.len() as int) =~= o1);
                    assert(frames_model(o1) == frames_model(out@).push(frame_model(name)));
                    assert(frames_model(o1.push(x)) == frames_model(o1).push(frame_model(x)));
                    let fm = fields_model(d@.subrange(0, i + 1));
                    assert(fm == pre.push((d@[i as int].name@, value_model(d@[i as int].value))));
                    assert(fm.subrange(0, fm.len() - 1) == pre);
                }
                out.push(name);
                out.push(x);
                i = i + 1;
            }
            assert(d@.subrange(0, d.len() as int) =~= d@);
            RedisFrame::Array(out)
        },
        MessageValue::Rows(r) => {
            let mut out: Vec<RedisFrame> = Vec::new();
            let mut i: usize = 0;
            while i < r.len()
                invariant
                    i <= r.len(),
                    *v == MessageValue::Rows(*r),
                    frames_model(out@) == rows_to_resps(rows_model(r@.subrange(0, i as int))),
                decreases r.len() - i,
            {
                proof {
                    let vv = *v;
                    let rr = vv->Rows_0;
                    assert(decreases_to!(vv => rr));
                    assert(decreases_to!(rr => rr@));
                    assert(decreases_to!(vv => rr@[i as int]));
                }
                let row = RedisFrame::Array(values_to_frames(&r[i]));
                proof {
                    let pre = rows_model(r@.subrange(0, i as int));
                    assert(r@.subrange(0, i + 1).subrange(0, i as int) =~= r@.subrange(0, i as int));
                    assert(pre.push(values_model(r@[i as int]@)).subrange(0, pre.len() as int) =~= pre);
                    assert(out@.push(row).subrange(0, out.len() as int) =~= out@);
                    assert(frames_model(out@.push(row)) == frames_model(out@).push(frame_model(row)));
                    let rm = rows_model(r@.subrange(0, i + 1));
                    assert(rm == pre.push(values_model(r@[i as int]@)));
                    assert(rm.subrange(0, rm.len() - 1) == pre);
                }
                out.push(row);
                i = i + 1;
            }
            assert(r@.subrange(0, r.len() as int) =~= r@);
            RedisFrame::Array(out)
        },
    }
}

} // verus!
