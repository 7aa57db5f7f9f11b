//! Semantic classification of key-value commands: which keys and values a
//! command names, and whether it reads or writes.
//!
//! A command's arguments are handled as a stack: the argument vector is
//! reversed, so its last element is the first argument on the wire.
use vstd::prelude::*;
use crate::resp::{
    RedisFrame, Resp, frame_model, frames_model, lemma_frames_model, copy_bytes, decimal,
    write_decimal,
};
use crate::message::{
    MessageValue, Field, Val, QueryMessage, QueryResponse, QueryType, ASTHolder, IntSize,
    values_model, fields_model, field_map, fields_wf, insert_field, insert_sorted, names_sorted,
    entries_map,
    lemma_fields_model, lemma_values_model_push,
};
use crate::convert::{resp_to_val, resps_to_vals, frame_to_value, duplicate_frame};
use crate::commands::{
    ExtractionShape, command_entry, lookup_command, is_read_command, read_command,
};

verus! {

broadcast use vstd::std_specs::vec::group_vec_axioms;

/// The name of the field that lists a command's keys: `key`.
pub open spec fn key_name() -> Seq<u8> {
    seq![107u8, 101u8, 121u8]
}

fn key_name_bytes() -> (r: Vec<u8>)
    ensures
        r@ == key_name(),
{
    let mut r: Vec<u8> = Vec::new();
    r.push(107u8);
    r.push(101u8);
    r.push(121u8);
    assert(r@ =~= key_name());
    r
}

/// The payloads of the bulk strings among `s`, in order.
pub open spec fn bulk_payloads(s: Seq<Resp>) -> Seq<Seq<u8>>
    decreases s.len(),
{
    if s.len() == 0 {
        Seq::empty()
    } else {
        let p = bulk_payloads(s.subrange(0, s.len() - 1));
        match s[s.len() - 1] {
            Resp::Bulk(b) => p.push(b),
            _ => p,
        }
    }
}

/// Byte strings as byte values.
pub open spec fn bytes_vals(s: Seq<Seq<u8>>) -> Seq<Val> {
    s.map_values(|b: Seq<u8>| Val::Bytes(b))
}

/// `m` with each of `ks` set to the null value, in order.
pub open spec fn with_nulls(m: Map<Seq<u8>, Val>, ks: Seq<Seq<u8>>) -> Map<Seq<u8>, Val>
    decreases ks.len(),
{
    if ks.len() == 0 {
        m
    } else {
        with_nulls(m, ks.subrange(0, ks.len() - 1)).insert(ks[ks.len() - 1], Val::Nil)
    }
}

/// Field/value pairs popped off the stack `s` into the map `m`: a field name
/// that is not a bulk string is dropped, and so is a last name with no value
/// after it.
pub open spec fn doc_map(m: Map<Seq<u8>, Val>, s: Seq<Resp>) -> Map<Seq<u8>, Val>
    decreases s.len(),
{
    if s.len() == 0 {
        m
    } else {
        match s[s.len() - 1] {
            Resp::Bulk(name) => if s.len() >= 2 {
                doc_map(m.insert(name, resp_to_val(s[s.len() - 2])), s.subrange(0, s.len() - 2))
            } else {
                m
            },
            _ => doc_map(m, s.subrange(0, s.len() - 1)),
        }
    }
}

/// A document: entries sorted by name, standing for `doc_map` of the stack.
pub open spec fn document_of(doc: Val, s: Seq<Resp>) -> bool {
    &&& doc is Doc
    &&& names_sorted(doc->Doc_0)
    &&& entries_map(doc->Doc_0) == doc_map(Map::empty(), s)
}

/// Key/value pairs popped off the stack `s` into `m`, each value recorded as a
/// one-element list; a key that is not a bulk string is dropped, and so is a
/// last key with no value after it.
pub open spec fn flat_pairs_into(m: Map<Seq<u8>, Val>, s: Seq<Resp>) -> Map<Seq<u8>, Val>
    decreases s.len(),
{
    if s.len() == 0 {
        m
    } else {
        match s[s.len() - 1] {
            Resp::Bulk(k) => if s.len() >= 2 {
                flat_pairs_into(
                    m.insert(k, Val::List(seq![resp_to_val(s[s.len() - 2])])),
                    s.subrange(0, s.len() - 2),
                )
            } else {
                m
            },
            _ => flat_pairs_into(m, s.subrange(0, s.len() - 1)),
        }
    }
}

/// The keys popped off the stack `s` in flat key/value order: each bulk string
/// popped where a key is due, whether or not a value follows it.
pub open spec fn flat_keys(s: Seq<Resp>) -> Seq<Seq<u8>>
    decreases s.len(),
{
    if s.len() == 0 {
        Seq::empty()
    } else {
        match s[s.len() - 1] {
            Resp::Bulk(k) => if s.len() >= 2 {
                seq![k] + flat_keys(s.subrange(0, s.len() - 2))
            } else {
                seq![k]
            },
            _ => flat_keys(s.subrange(0, s.len() - 1)),
        }
    }
}

proof fn lemma_frames_model_prefix(s: Seq<RedisFrame>, n: int)
    requires
        0 <= n <= s.len(),
    ensures
        frames_model(s.subrange(0, n)) == frames_model(s).subrange(0, n),
{
    lemma_frames_model(s);
    lemma_frames_model(s.subrange(0, n));
    assert(frames_model(s.subrange(0, n)) =~= frames_model(s).subrange(0, n));
}

/// Keys only: every bulk string is a key, recorded with a null value, and all
/// of them are listed under `key`.
pub fn get_keys(fields: &mut Vec<Field>, keys: &mut Vec<Field>, frames: Vec<RedisFrame>)
    requires
        fields_wf(old(fields)@),
        fields_wf(old(keys)@),
    ensures
        fields_wf(final(fields)@),
        fields_wf(final(keys)@),
        field_map(final(fields)@) == with_nulls(
            field_map(old(fields)@),
            bulk_payloads(frames_model(frames@)),
        ),
        field_map(final(keys)@) == field_map(old(keys)@).insert(
            key_name(),
            Val::List(bytes_vals(bulk_payloads(frames_model(frames@)))),
        ),
{
    let mut storage: Vec<MessageValue> = Vec::new();
    let mut i: usize = 0;
    while i < frames.len()
        invariant
            i <= frames.len(),
            fields_wf(fields@),
            field_map(fields@) == with_nulls(
                field_map(old(fields)@),
                bulk_payloads(frames_model(frames@.subrange(0, i as int))),
            ),
            values_model(storage@) == bytes_vals(
                bulk_payloads(frames_model(frames@.subrange(0, i as int))),
            ),
        decreases frames.len() - i,
    {
        let ghost pre = frames_model(frames@.subrange(0, i as int));
        proof {
            assert(frames@.subrange(0, i + 1).subrange(0, i as int) =~= frames@.subrange(0, i as int));
            assert(pre.push(frame_model(frames@[i as int])).subrange(0, pre.len() as int) =~= pre);
        }
        if let RedisFrame::BulkString(v) = &frames[i] {
            let ghost ks = bulk_payloads(pre);
            insert_field(fields, copy_bytes(v), MessageValue::NULL);
            let item = MessageValue::Bytes(copy_bytes(v));
            proof {
                assert(ks.push(v@).subrange(0, ks.len() as int) =~= ks);
                lemma_values_model_push(storage@, item);
                assert(bytes_vals(ks.push(v@)) =~= bytes_vals(ks).push(Val::Bytes(v@)));
            }
            storage.push(item);
        }
        i = i + 1;
    }
    assert(frames@.subrange(0, frames.len() as int) =~= frames@);
    insert_field(keys, key_name_bytes(), MessageValue::List(storage));
}

/// The values of a sequence of frames, in order.
fn frames_to_values(fs: &Vec<RedisFrame>) -> (r: Vec<MessageValue>)
    ensures
        values_model(r@) == resps_to_vals(frames_model(fs@)),
{
    let mut out: Vec<MessageValue> = Vec::new();
    let mut i: usize = 0;
    while i < fs.len()
        invariant
            i <= fs.len(),
            values_model(out@) == resps_to_vals(frames_model(fs@.subrange(0, i as int))),
        decreases fs.len() - i,
    {
        let x = frame_to_value(&fs[i]);
        proof {
            let pre = frames_model(fs@.subrange(0, i as int));
            assert(fs@.subrange(0, i + 1).subrange(0, i as int) =~= fs@.subrange(0, i as int));
            assert(pre.push(frame_model(fs@[i as int])).subrange(0, pre.len() as int) =~= pre);
            assert(out@.push(x).subrange(0, out.len() as int) =~= out@);
        }
        out.push(x);
        i = i + 1;
    }
    assert(fs@.subrange(0, fs.len() as int) =~= fs@);
    out
}

/// Key and several values: the top of the stack is the key; the rest, in stack
/// order, are its values.
pub fn get_key_multi_values(fields: &mut Vec<Field>, keys: &mut Vec<Field>, frames: Vec<RedisFrame>)
    requires
        fields_wf(old(fields)@),
        fields_wf(old(keys)@),
    ensures
        fields_wf(final(fields)@),
        fields_wf(final(keys)@),
        ({
            let m = frames_model(frames@);
            if m.len() > 0 && m[m.len() - 1] is Bulk {
                let k = m[m.len() - 1]->Bulk_0;
                &&& field_map(final(fields)@) == field_map(old(fields)@).insert(
                    k,
                    Val::List(resps_to_vals(m.subrange(0, m.len() - 1))),
                )
                &&& field_map(final(keys)@) == field_map(old(keys)@).insert(
                    key_name(),
                    Val::List(seq![Val::Bytes(k)]),
                )
            } else {
                &&& final(fields)@ == old(fields)@
                &&& final(keys)@ == old(keys)@
            }
        }),
{
    let ghost whole = frames@;
    let mut frames = frames;
    proof {
        lemma_frames_model(whole);
    }
    if let Some(RedisFrame::BulkString(v)) = frames.pop() {
        proof {
            lemma_frames_model_prefix(whole, whole.len() - 1);
        }
        let values = frames_to_values(&frames);
        insert_field(fields, copy_bytes(&v), MessageValue::List(values));
        let mut listed: Vec<MessageValue> = Vec::new();
        proof {
            lemma_values_model_push(listed@, MessageValue::Bytes(v));
            assert(values_model(listed@) =~= Seq::<Val>::empty());
        }
        listed.push(MessageValue::Bytes(v));
        proof {
            assert(seq![Val::Bytes(v@)] =~= Seq::<Val>::empty().push(Val::Bytes(v@)));
        }
        insert_field(keys, key_name_bytes(), MessageValue::List(listed));
    }
}

/// Key and a map: the top of the stack is the key; below it, field/value pairs
/// popped in turn make a document.
pub fn get_key_map(fields: &mut Vec<Field>, keys: &mut Vec<Field>, frames: Vec<RedisFrame>)
    requires
        fields_wf(old(fields)@),
        fields_wf(old(keys)@),
    ensures
        fields_wf(final(fields)@),
        fields_wf(final(keys)@),
        ({
            let m = frames_model(frames@);
            if m.len() > 0 && m[m.len() - 1] is Bulk {
                let k = m[m.len() - 1]->Bulk_0;
                let doc = field_map(final(fields)@)[k];
                &&& field_map(final(fields)@) == field_map(old(fields)@).insert(k, doc)
                &&& document_of(doc, m.subrange(0, m.len() - 1))
                &&& field_map(final(keys)@) == field_map(old(keys)@).insert(
                    key_name(),
                    Val::List(seq![Val::Bytes(k)]),
                )
            } else {
                &&& final(fields)@ == old(fields)@
                &&& final(keys)@ == old(keys)@
            }
        }),
{
    let ghost whole = frames@;
    let mut frames = frames;
    proof {
        lemma_frames_model(whole);
    }
    if let Some(RedisFrame::BulkString(v)) = frames.pop() {
        proof {
            lemma_frames_model_prefix(whole, whole.len() - 1);
        }
        let ghost target = doc_map(Map::empty(), frames_model(frames@));
        let mut values: Vec<Field> = Vec::new();
        proof {
            assert(fields_model(values@) =~= Seq::<(Seq<u8>, Val)>::empty());
            assert(field_map(values@) =~= Map::empty());
        }
        while frames.len() > 0
            invariant
                names_sorted(fields_model(values@)),
                doc_map(field_map(values@), frames_model(frames@)) == target,
            decreases frames.len(),
        {
            let ghost before = frames@;
            proof {
                lemma_frames_model(before);
                lemma_frames_model_prefix(before, before.len() - 1);
                if before.len() >= 2 {
                    lemma_frames_model_prefix(before, before.len() - 2);
                    assert(before.subrange(0, before.len() - 1).subrange(0, before.len() - 2)
                        =~= before.subrange(0, before.len() - 2));
                }
            }
            if let Some(RedisFrame::BulkString(field)) = frames.pop() {
                if let Some(frame) = frames.pop() {
                    insert_sorted(&mut values, field, frame_to_value(&frame));
                }
            }
        }
        proof {
            assert(frames_model(frames@) =~= Seq::<Resp>::empty());
            lemma_fields_model(values@);
        }
        insert_field(fields, copy_bytes(&v), MessageValue::Document(values));
        let mut listed: Vec<MessageValue> = Vec::new();
        proof {
            lemma_values_model_push(listed@, MessageValue::Bytes(v));
            assert(values_model(listed@) =~= Seq::<Val>::empty());
        }
        listed.push(MessageValue::Bytes(v));
        proof {
            assert(seq![Val::Bytes(v@)] =~= Seq::<Val>::empty().push(Val::Bytes(v@)));
        }
        insert_field(keys, key_name_bytes(), MessageValue::List(listed));
    }
}

/// Flat keys and values: pairs popped in turn, each key recorded with its value
/// and listed under `key`.
pub fn get_key_values(fields: &mut Vec<Field>, keys: &mut Vec<Field>, frames: Vec<RedisFrame>)
    requires
        fields_wf(old(fields)@),
        fields_wf(old(keys)@),
    ensures
        fields_wf(final(fields)@),
        fields_wf(final(keys)@),
        field_map(final(fields)@) == flat_pairs_into(
            field_map(old(fields)@),
            frames_model(frames@),
        ),
        field_map(final(keys)@) == field_map(old(keys)@).insert(
            key_name(),
            Val::List(bytes_vals(flat_keys(frames_model(frames@)))),
        ),
{
    let ghost whole = frames_model(frames@);
    let mut frames = frames;
    let mut storage: Vec<MessageValue> = Vec::new();
    while frames.len() > 0
        invariant
            fields_wf(fields@),
            flat_pairs_into(field_map(fields@), frames_model(frames@)) == flat_pairs_into(
                field_map(old(fields)@),
                whole,
            ),
            values_model(storage@) + bytes_vals(flat_keys(frames_model(frames@))) == bytes_vals(
                flat_keys(whole),
            ),
        decreases frames.len(),
    {
        let ghost before = frames@;
        proof {
            lemma_frames_model(before);
            lemma_frames_model_prefix(before, before.len() - 1);
            if before.len() >= 2 {
                lemma_frames_model_prefix(before, before.len() - 2);
                assert(before.subrange(0, before.len() - 1).subrange(0, before.len() - 2)
                    =~= before.subrange(0, before.len() - 2));
            }
        }
        if let Some(RedisFrame::BulkString(k)) = frames.pop() {
            if let Some(frame) = frames.pop() {
                let mut one: Vec<MessageValue> = Vec::new();
                let x = frame_to_value(&frame);
                proof {
                    lemma_values_model_push(one@, x);
                    assert(values_model(one@) =~= Seq::<Val>::empty());
                }
                one.push(x);
                proof {
                    assert(seq![x@] =~= Seq::<Val>::empty().push(x@));
                }
                insert_field(fields, copy_bytes(&k), MessageValue::List(one));
            }
            let item = MessageValue::Bytes(k);
            proof {
                let rest = flat_keys(frames_model(frames@));
                lemma_values_model_push(storage@, item);
                assert(bytes_vals(seq![k@] + rest) =~= seq![Val::Bytes(k@)] + bytes_vals(rest));
                assert(values_model(storage@.push(item)) + bytes_vals(rest) =~= values_model(storage@)
                    + bytes_vals(seq![k@] + rest));
            }
            storage.push(item);
        }
    }
    proof {
        assert(frames_model(frames@) =~= Seq::<Resp>::empty());
        assert(values_model(storage@) + bytes_vals(Seq::<Seq<u8>>::empty()) =~= values_model(storage@));
    }
    insert_field(keys, key_name_bytes(), MessageValue::List(storage));
}

/// ASCII letters in upper case; other bytes as they are.
pub open spec fn ascii_upper(s: Seq<u8>) -> Seq<u8> {
    s.map_values(|c: u8| if 97 <= c <= 122 { (c - 32) as u8 } else { c })
}

fn to_upper(b: &Vec<u8>) -> (r: Vec<u8>)
    ensures
        r@ == ascii_upper(b@),
{
    let mut r: Vec<u8> = Vec::new();
    let mut i: usize = 0;
    while i < b.len()
        invariant
            i <= b.len(),
            r@ == ascii_upper(b@.subrange(0, i as int)),
        decreases b.len() - i,
    {
        let c: u8 = b[i];
        let u: u8 = if 97 <= c && c <= 122 {
            c - 32
        } else {
            c
        };
        r.push(u);
        i = i + 1;
        assert(r@ =~= ascii_upper(b@.subrange(0, i as int)));
    }
    assert(b@.subrange(0, b.len() as int) =~= b@);
    r
}

/// Byte strings joined by single spaces.
pub open spec fn join_spaced(l: Seq<Seq<u8>>) -> Seq<u8>
    decreases l.len(),
{
    if l.len() == 0 {
        Seq::empty()
    } else if l.len() == 1 {
        l[0]
    } else {
        join_spaced(l.subrange(0, l.len() - 1)) + seq![32u8] + l[l.len() - 1]
    }
}

/// The text of a command: its bulk strings joined by single spaces.
fn join_bulk(fs: &Vec<RedisFrame>) -> (r: Vec<u8>)
    ensures
        r@ == join_spaced(bulk_payloads(frames_model(fs@))),
{
    let mut out: Vec<u8> = Vec::new();
    let mut any: bool = false;
    let mut i: usize = 0;
    while i < fs.len()
        invariant
            i <= fs.len(),
            out@ == join_spaced(bulk_payloads(frames_model(fs@.subrange(0, i as int)))),
            any == (bulk_payloads(frames_model(fs@.subrange(0, i as int))).len() > 0),
        decreases fs.len() - i,
    {
        let ghost pre = frames_model(fs@.subrange(0, i as int));
        proof {
            assert(fs@.subrange(0, i + 1).subrange(0, i as int) =~= fs@.subrange(0, i as int));
            assert(pre.push(frame_model(fs@[i as int])).subrange(0, pre.len() as int) =~= pre);
        }
        if let RedisFrame::BulkString(b) = &fs[i] {
            let ghost l = bulk_payloads(pre);
            proof {
                assert(l.push(b@).subrange(0, l.len() as int) =~= l);
            }
            if any {
                out.push(32u8);
            }
            let mut k: usize = 0;
            let ghost start = out@;
            while k < b.len()
                invariant
                    k <= b.len(),
                    out@ == start + b@.subrange(0, k as int),
                decreases b.len() - k,
            {
                out.push(b[k]);
                k = k + 1;
                assert(out@ =~= start + b@.subrange(0, k as int));
            }
            assert(b@.subrange(0, b.len() as int) =~= b@);
            assert(out@ =~= join_spaced(l.push(b@)));
            any = true;
        }
        i = i + 1;
    }
    assert(fs@.subrange(0, fs.len() as int) =~= fs@);
    out
}

/// The arguments after the command name, as a stack: the first argument on top.
pub open spec fn arg_stack(m: Seq<Resp>) -> Seq<Resp> {
    Seq::new((m.len() - 1) as nat, |j: int| m[m.len() - 1 - j])
}

/// What one extraction shape records, starting from empty maps, for the stack `args`.
pub open spec fn extraction(
    shape: ExtractionShape,
    args: Seq<Resp>,
    values: Map<Seq<u8>, Val>,
    keys: Map<Seq<u8>, Val>,
) -> bool {
    let top = args[args.len() - 1];
    let below = args.subrange(0, args.len() - 1);
    match shape {
        ExtractionShape::Keys => {
            &&& values == with_nulls(Map::empty(), bulk_payloads(args))
            &&& keys == Map::<Seq<u8>, Val>::empty().insert(
                key_name(),
                Val::List(bytes_vals(bulk_payloads(args))),
            )
        },
        ExtractionShape::KeyValues => {
            &&& values == flat_pairs_into(Map::empty(), args)
            &&& keys == Map::<Seq<u8>, Val>::empty().insert(
                key_name(),
                Val::List(bytes_vals(flat_keys(args))),
            )
        },
        ExtractionShape::KeyMultiValues => if args.len() > 0 && top is Bulk {
            &&& values == Map::<Seq<u8>, Val>::empty().insert(
                top->Bulk_0,
                Val::List(resps_to_vals(below)),
            )
            &&& keys == Map::<Seq<u8>, Val>::empty().insert(
                key_name(),
                Val::List(seq![Val::Bytes(top->Bulk_0)]),
            )
        } else {
            values == Map::<Seq<u8>, Val>::empty() && keys == Map::<Seq<u8>, Val>::empty()
        },
        ExtractionShape::KeyMap => if args.len() > 0 && top is Bulk {
            let doc = values[top->Bulk_0];
            &&& values == Map::<Seq<u8>, Val>::empty().insert(top->Bulk_0, doc)
            &&& document_of(doc, below)
            &&& keys == Map::<Seq<u8>, Val>::empty().insert(
                key_name(),
                Val::List(seq![Val::Bytes(top->Bulk_0)]),
            )
        } else {
            values == Map::<Seq<u8>, Val>::empty() && keys == Map::<Seq<u8>, Val>::empty()
        },
    }
}

/// `q` is the classification of the command array `m`.
pub open spec fn classified_array(q: QueryMessage, m: Seq<Resp>) -> bool {
    if m.len() > 0 && m[0] is Bulk {
        let e = command_entry(ascii_upper(m[0]->Bulk_0));
        &&& q.query_string@ == join_spaced(bulk_payloads(m))
        &&& q.namespace@.len() == 0
        &&& q.projection is None
        &&& q.query_type == (match e {
            Some(c) => c.query_type,
            None => QueryType::Write,
        })
        &&& fields_wf(q.primary_key@)
        &&& q.query_values is Some
        &&& fields_wf(q.query_values->Some_0@)
        &&& extraction(
            match e {
                Some(c) => c.shape,
                None => ExtractionShape::Keys,
            },
            arg_stack(m),
            field_map(q.query_values->Some_0@),
            field_map(q.primary_key@),
        )
        &&& (q.ast matches Some(ASTHolder::Commands(v)) && frames_model(v@) == m)
    } else {
        q.is_empty_query()
    }
}

proof fn lemma_field_map_empty(s: Seq<Field>)
    requires
        s.len() == 0,
    ensures
        field_map(s) == Map::<Seq<u8>, Val>::empty(),
        fields_wf(s),
{
    assert(fields_model(s) =~= Seq::<(Seq<u8>, Val)>::empty());
    assert(field_map(s) =~= Map::<Seq<u8>, Val>::empty());
}

/// Classifies a command sent as an array: its first element names the command,
/// looked up case-insensitively; a command missing from the table is a write
/// whose arguments are all keys.
pub fn handle_redis_array_query(commands_vec: Vec<RedisFrame>) -> (r: QueryMessage)
    ensures
        classified_array(r, frames_model(commands_vec@)),
{
    let ghost m = frames_model(commands_vec@);
    proof {
        lemma_frames_model(commands_vec@);
    }
    if commands_vec.len() == 0 {
        return QueryMessage::empty();
    }
    let name = match &commands_vec[0] {
        RedisFrame::BulkString(c) => to_upper(c),
        _ => {
            return QueryMessage::empty();
        },
    };
    let n: usize = commands_vec.len();
    let mut args: Vec<RedisFrame> = Vec::new();
    let mut i: usize = n;
    while i > 1
        invariant
            1 <= i <= n,
            n == commands_vec.len(),
            m == frames_model(commands_vec@),
            m.len() == n,
            forall|j: int| 0 <= j < n ==> #[trigger] m[j] == frame_model(commands_vec@[j]),
            frames_model(args@) == Seq::new((n - i) as nat, |j: int| m[n - 1 - j]),
        decreases i,
    {
        i = i - 1;
        let x = duplicate_frame(&commands_vec[i]);
        proof {
            assert(args@.push(x).subrange(0, args.len() as int) =~= args@);
            assert(frames_model(args@.push(x)) =~= Seq::new((n - i) as nat, |j: int| m[n - 1 - j]));
        }
        args.push(x);
    }
    assert(frames_model(args@) =~= arg_stack(m));
    let mut primary_key: Vec<Field> = Vec::new();
    let mut query_values: Vec<Field> = Vec::new();
    proof {
        lemma_field_map_empty(primary_key@);
        lemma_field_map_empty(query_values@);
    }
    let mut query_type = QueryType::Write;
    match lookup_command(&name) {
        Some(e) => {
            query_type = e.query_type;
            match e.shape {
                ExtractionShape::Keys => get_keys(&mut query_values, &mut primary_key, args),
                ExtractionShape::KeyMultiValues => get_key_multi_values(
                    &mut query_values,
                    &mut primary_key,
                    args,
                ),
                ExtractionShape::KeyMap => get_key_map(&mut query_values, &mut primary_key, args),
                ExtractionShape::KeyValues => get_key_values(
                    &mut query_values,
                    &mut primary_key,
                    args,
                ),
            }
        },
        None => get_keys(&mut query_values, &mut primary_key, args),
    }
    let query_string = join_bulk(&commands_vec);
    let ast = ASTHolder::Commands(commands_vec);
    QueryMessage {
        query_string,
        namespace: Vec::new(),
        primary_key,
        query_values: Some(query_values),
        projection: None,
        query_type,
        ast: Some(ast),
    }
}

/// A query that carries only its text.
pub open spec fn text_query(q: QueryMessage, text: Seq<u8>) -> bool {
    &&& q.query_string@ == text
    &&& q.namespace@.len() == 0
    &&& q.primary_key@.len() == 0
    &&& q.query_values is None
    &&& q.projection is None
    &&& q.query_type == QueryType::ReadWrite
    &&& q.ast is None
}

/// `q` is the classification of a query frame `f`.
pub open spec fn classified_query(q: QueryMessage, f: Resp) -> bool {
    match f {
        Resp::Simple(s) => text_query(q, s),
        Resp::Bulk(s) => text_query(q, s),
        Resp::Fail(s) => text_query(q, s),
        Resp::Int(i) => text_query(q, decimal(i)),
        Resp::Arr(m) => classified_array(q, m),
        Resp::Nil => q.is_empty_query(),
    }
}

fn text_query_of(text: Vec<u8>) -> (q: QueryMessage)
    ensures
        text_query(q, text@),
{
    QueryMessage {
        query_string: text,
        namespace: Vec::new(),
        primary_key: Vec::new(),
        query_values: None,
        projection: None,
        query_type: QueryType::ReadWrite,
        ast: None,
    }
}

/// Classifies a frame received as a query.
pub fn process_redis_frame_query(frame: &RedisFrame) -> (r: QueryMessage)
    ensures
        classified_query(r, frame@),
{
    match frame {
        RedisFrame::SimpleString(s) => text_query_of(copy_bytes(s)),
        RedisFrame::BulkString(s) => text_query_of(copy_bytes(s)),
        RedisFrame::Error(s) => text_query_of(copy_bytes(s)),
        RedisFrame::Integer(i) => {
            let mut text: Vec<u8> = Vec::new();
            write_decimal(*i, &mut text);
            assert(text@ =~= decimal(*i as int));
            text_query_of(text)
        },
        RedisFrame::Array(_) => {
            let copy = duplicate_frame(frame);
            match copy {
                RedisFrame::Array(frames) => handle_redis_array_query(frames),
                _ => QueryMessage::empty(),
            }
        },
        RedisFrame::Null => QueryMessage::empty(),
    }
}

/// `r` is the classification of a response frame `f`: the frame's variant decides.
pub open spec fn classified_response(r: QueryResponse, f: Resp) -> bool {
    &&& r.matching_query is None
    &&& r.response_meta is None
    &&& match f {
        Resp::Simple(s) => r.error is None && (r.result matches Some(v) && v@ == Val::Text(s)),
        Resp::Bulk(b) => r.error is None && (r.result matches Some(v) && v@ == Val::Bytes(b)),
        Resp::Arr(m) => r.error is None && (r.result matches Some(v) && v@ == Val::List(
            resps_to_vals(m),
        )),
        Resp::Int(i) => r.error is None && (r.result matches Some(v) && v@ == Val::Int(
            i,
            IntSize::I32,
        )),
        Resp::Fail(e) => r.result is None && (r.error matches Some(v) && v@ == Val::Text(e)),
        Resp::Nil => r.result is None && r.error is None,
    }
}

fn result_response(v: MessageValue) -> (r: QueryResponse)
    ensures
        r.matching_query is None,
        r.response_meta is None,
        r.error is None,
        r.result == Some(v),
{
    QueryResponse { matching_query: None, result: Some(v), error: None, response_meta: None }
}

/// Classifies a frame received as a response.
pub fn process_redis_frame_response(frame: &RedisFrame) -> (r: QueryResponse)
    ensures
        classified_response(r, frame@),
{
    match frame {
        RedisFrame::SimpleString(s) => result_response(MessageValue::Strings(copy_bytes(s))),
        RedisFrame::BulkString(b) => result_response(MessageValue::Bytes(copy_bytes(b))),
        RedisFrame::Array(fs) => result_response(MessageValue::List(frames_to_values(fs))),
        RedisFrame::Integer(i) => result_response(MessageValue::Integer(*i, IntSize::I32)),
        RedisFrame::Error(e) => QueryResponse {
            matching_query: None,
            result: None,
            error: Some(MessageValue::Strings(copy_bytes(e))),
            response_meta: None,
        },
        RedisFrame::Null => QueryResponse::empty(),
    }
}

/// Whether a query frame only reads: an array whose first element, a bulk
/// string, names a command of the read list.
pub fn redis_query_type(frame: &RedisFrame) -> (r: QueryType)
    ensures
        r == (match frame@ {
            Resp::Arr(m) => if m.len() > 0 && m[0] is Bulk && is_read_command(
                ascii_upper(m[0]->Bulk_0),
            ) {
                QueryType::Read
            } else {
                QueryType::Write
            },
            _ => QueryType::Write,
        }),
{
    if let RedisFrame::Array(frames) = frame {
        proof {
            lemma_frames_model(frames@);
        }
        if frames.len() > 0 {
            if let RedisFrame::BulkString(bytes) = &frames[0] {
                if read_command(&to_upper(bytes)) {
                    return QueryType::Read;
                }
            }
        }
    }
    QueryType::Write
}

} // verus!
