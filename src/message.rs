//! The protocol-independent message model.
use vstd::prelude::*;
use crate::resp::RedisFrame;

verus! {

broadcast use vstd::std_specs::vec::group_vec_axioms;

/// How a query touches the store; set once when it is classified.
#[derive(Debug, Clone, Copy, PartialEq, Eq, Structural)]
pub enum QueryType {
    Read,
    Write,
    ReadWrite,
}

/// The declared width of an integer value.
#[derive(Debug, Clone, Copy, PartialEq, Eq, Structural)]
pub enum IntSize {
    I64,
    I32,
    I16,
    I8,
}

/// A protocol-independent value.
#[derive(Debug)]
pub enum MessageValue {
    NULL,
    Bytes(Vec<u8>),
    Strings(Vec<u8>),
    Integer(i64, IntSize),
    Boolean(bool),
    /// Seconds since the Unix epoch.
    Timestamp(i64),
    List(Vec<MessageValue>),
    /// Named values, kept sorted by name with names unique (`names_sorted`),
    /// as an ordered map keeps them; `insert_sorted` preserves the order.
    Document(Vec<Field>),
    Rows(Vec<Vec<MessageValue>>),
}

/// One named entry of a document or of a field map.
#[derive(Debug)]
pub struct Field {
    pub name: Vec<u8>,
    pub value: MessageValue,
}

/// The mathematical value of a `MessageValue`.
pub enum Val {
    Nil,
    Bytes(Seq<u8>),
    Text(Seq<u8>),
    Int(int, IntSize),
    Bool(bool),
    Time(int),
    List(Seq<Val>),
    Doc(Seq<(Seq<u8>, Val)>),
    Rows(Seq<Seq<Val>>),
}

pub open spec fn value_model(v: MessageValue) -> Val
    decreases v,
{
    match v {
        MessageValue::NULL => Val::Nil,
        MessageValue::Bytes(b) => Val::Bytes(b@),
        MessageValue::Strings(s) => Val::Text(s@),
        MessageValue::Integer(i, w) => Val::Int(i as int, w),
        MessageValue::Boolean(b) => Val::Bool(b),
        MessageValue::Timestamp(t) => Val::Time(t as int),
        MessageValue::List(l) => Val::List(values_model(l@)),
        MessageValue::Document(d) => Val::Doc(fields_model(d@)),
        MessageValue::Rows(r) => Val::Rows(rows_model(r@)),
    }
}

pub open spec fn values_model(s: Seq<MessageValue>) -> Seq<Val>
    decreases s,
{
    if s.len() == 0 {
        Seq::empty()
    } else {
        values_model(s.subrange(0, s.len() - 1)).push(value_model(s[s.len() - 1]))
    }
}

pub open spec fn fields_model(s: Seq<Field>) -> Seq<(Seq<u8>, Val)>
    decreases s,
{
    if s.len() == 0 {
        Seq::empty()
    } else {
        fields_model(s.subrange(0, s.len() - 1)).push(
            (s[s.len() - 1].name@, value_model(s[s.len() - 1].value)),
        )
    }
}

pub open spec fn rows_model(s: Seq<Vec<MessageValue>>) -> Seq<Seq<Val>>
    decreases s,
{
    if s.len() == 0 {
        Seq::empty()
    } else {
        rows_model(s.subrange(0, s.len() - 1)).push(values_model(s[s.len() - 1]@))
    }
}

impl View for MessageValue {
    type V = Val;

    open spec fn view(&self) -> Val {
        value_model(*self)
    }
}

pub proof fn lemma_values_model(s: Seq<MessageValue>)
    ensures
        values_model(s).len() == s.len(),
        forall|j: int| 0 <= j < s.len() ==> #[trigger] values_model(s)[j] == value_model(s[j]),
    decreases s.len(),
{
    if s.len() > 0 {
        lemma_values_model(s.subrange(0, s.len() - 1));
    }
}

pub proof fn lemma_fields_model(s: Seq<Field>)
    ensures
        fields_model(s).len() == s.len(),
        forall|j: int|
            0 <= j < s.len() ==> #[trigger] fields_model(s)[j] == (s[j].name@, value_model(s[j].value)),
    decreases s.len(),
{
    if s.len() > 0 {
        lemma_fields_model(s.subrange(0, s.len() - 1));
    }
}

pub proof fn lemma_values_model_push(s: Seq<MessageValue>, x: MessageValue)
    ensures
        values_model(s.push(x)) == values_model(s).push(value_model(x)),
{
    assert(s.push(x).subrange(0, s.len() as int) =~= s);
}

/// Names are pairwise distinct.
pub open spec fn names_unique(p: Seq<(Seq<u8>, Val)>) -> bool {
    forall|i: int, j: int| 0 <= i < j < p.len() ==> p[i].0 != p[j].0
}

/// The map that a list of named entries stands for; a later entry wins.
pub open spec fn entries_map(p: Seq<(Seq<u8>, Val)>) -> Map<Seq<u8>, Val>
    decreases p.len(),
{
    if p.len() == 0 {
        Map::empty()
    } else {
        entries_map(p.subrange(0, p.len() - 1)).insert(p[p.len() - 1].0, p[p.len() - 1].1)
    }
}

/// The map view of a field list.
pub open spec fn field_map(s: Seq<Field>) -> Map<Seq<u8>, Val> {
    entries_map(fields_model(s))
}

/// `p` with `k` set to `v`: the entry named `k` replaced in place, or a new
/// entry appended where there is none.
pub open spec fn put_entry(p: Seq<(Seq<u8>, Val)>, k: Seq<u8>, v: Val) -> Seq<(Seq<u8>, Val)> {
    if exists|i: int| 0 <= i < p.len() && p[i].0 == k {
        p.update(choose|i: int| 0 <= i < p.len() && p[i].0 == k, (k, v))
    } else {
        p.push((k, v))
    }
}

/// A field list whose names are distinct.
pub open spec fn fields_wf(s: Seq<Field>) -> bool {
    names_unique(fields_model(s))
}

proof fn lemma_entries_map_update(p: Seq<(Seq<u8>, Val)>, j: int, v: Val)
    requires
        names_unique(p),
        0 <= j < p.len(),
    ensures
        entries_map(p.update(j, (p[j].0, v))) == entries_map(p).insert(p[j].0, v),
    decreases p.len(),
{
    let q = p.update(j, (p[j].0, v));
    let n = p.len() - 1;
    if j == n {
        assert(q.subrange(0, n) =~= p.subrange(0, n));
        assert(entries_map(q) =~= entries_map(p).insert(p[j].0, v));
    } else {
        let pd = p.subrange(0, n);
        assert(q.subrange(0, n) =~= pd.update(j, (pd[j].0, v)));
        lemma_entries_map_update(pd, j, v);
        assert(p[n].0 != p[j].0);
        assert(entries_map(q) =~= entries_map(p).insert(p[j].0, v));
    }
}

proof fn lemma_entries_map_dom(p: Seq<(Seq<u8>, Val)>, k: Seq<u8>)
    ensures
        entries_map(p).contains_key(k) <==> exists|i: int| 0 <= i < p.len() && p[i].0 == k,
    decreases p.len(),
{
    if p.len() > 0 {
        let n = p.len() - 1;
        lemma_entries_map_dom(p.subrange(0, n), k);
        if exists|i: int| 0 <= i < p.len() && p[i].0 == k {
            let i = choose|i: int| 0 <= i < p.len() && p[i].0 == k;
            if i < n {
                assert(p.subrange(0, n)[i].0 == k);
            }
        }
        if exists|i: int| 0 <= i < n && p.subrange(0, n)[i].0 == k {
            let i = choose|i: int| 0 <= i < n && p.subrange(0, n)[i].0 == k;
            assert(p[i].0 == k);
        }
    }
}

/// Whether two byte strings are equal.
pub fn bytes_equal(a: &Vec<u8>, b: &Vec<u8>) -> (r: bool)
    ensures
        r == (a@ == b@),
{
    if a.len() != b.len() {
        return false;
    }
    let mut i: usize = 0;
    while i < a.len()
        invariant
            a.len() == b.len(),
            i <= a.len(),
            forall|j: int| 0 <= j < i ==> a@[j] == b@[j],
        decreases a.len() - i,
    {
        if a[i] != b[i] {
            return false;
        }
        i = i + 1;
    }
    assert(a@ =~= b@);
    true
}

/// Sets `name` to `value` in a field list, as a map insert does: an entry of
/// that name is overwritten in place, otherwise one is appended.
pub fn insert_field(fields: &mut Vec<Field>, name: Vec<u8>, value: MessageValue)
    requires
        fields_wf(old(fields)@),
    ensures
        fields_wf(final(fields)@),
        field_map(final(fields)@) == field_map(old(fields)@).insert(name@, value@),
        fields_model(final(fields)@) == put_entry(fields_model(old(fields)@), name@, value@),
{
    proof {
        lemma_fields_model(fields@);
    }
    let mut i: usize = 0;
    while i < fields.len()
        invariant
            i <= fields.len(),
            fields@ == old(fields)@,
            forall|j: int| 0 <= j < i ==> fields@[j].name@ != name@,
            fields_wf(fields@),
        decreases fields.len() - i,
    {
        if bytes_equal(&fields[i].name, &name) {
            let ghost before = fields@;
            let ghost p = fields_model(fields@);
            let ghost v = value@;
            let entry = Field { name, value };
            fields.set(i, entry);
            proof {
                lemma_fields_model(before);
                lemma_fields_model(fields@);
                assert(fields_model(fields@) =~= p.update(i as int, (p[i as int].0, v)));
                lemma_entries_map_update(p, i as int, v);
                let j = choose|j: int| 0 <= j < p.len() && p[j].0 == name@;
                assert(p[i as int].0 == name@);
                assert(j == i);
            }
            return;
        }
        i = i + 1;
    }
    let ghost p = fields_model(fields@);
    fields.push(Field { name, value });
    proof {
        lemma_fields_model(old(fields)@);
        lemma_fields_model(fields@);
        assert(fields@.subrange(0, fields.len() - 1) =~= old(fields)@);
        assert(fields_model(fields@) =~= p.push((name@, value@)));
        assert(p.push((name@, value@)).subrange(0, p.len() as int) =~= p);
        assert forall|j: int| 0 <= j < p.len() implies p[j].0 != name@ by {
            assert(p[j].0 == old(fields)@[j].name@);
        }
    }
}

/// Byte-wise lexicographic order, the order of `str` and of `String` keys.
pub open spec fn lex_lt(a: Seq<u8>, b: Seq<u8>) -> bool
    decreases a.len(),
{
    if a.len() == 0 {
        b.len() > 0
    } else if b.len() == 0 {
        false
    } else if a[0] != b[0] {
        a[0] < b[0]
    } else {
        lex_lt(a.subrange(1, a.len() as int), b.subrange(1, b.len() as int))
    }
}

/// Names in strictly increasing order.
pub open spec fn names_sorted(p: Seq<(Seq<u8>, Val)>) -> bool {
    forall|i: int, j: int| 0 <= i < j < p.len() ==> lex_lt(#[trigger] p[i].0, #[trigger] p[j].0)
}

proof fn lemma_lex_irreflexive(a: Seq<u8>)
    ensures
        !lex_lt(a, a),
    decreases a.len(),
{
    if a.len() > 0 {
        lemma_lex_irreflexive(a.subrange(1, a.len() as int));
    }
}

proof fn lemma_lex_transitive(a: Seq<u8>, b: Seq<u8>, c: Seq<u8>)
    requires
        lex_lt(a, b),
        lex_lt(b, c),
    ensures
        lex_lt(a, c),
    decreases a.len(),
{
    if a.len() > 0 && b.len() > 0 && c.len() > 0 && a[0] == b[0] && b[0] == c[0] {
        lemma_lex_transitive(
            a.subrange(1, a.len() as int),
            b.subrange(1, b.len() as int),
            c.subrange(1, c.len() as int),
        );
    }
}

proof fn lemma_lex_total(a: Seq<u8>, b: Seq<u8>)
    requires
        a != b,
    ensures
        lex_lt(a, b) || lex_lt(b, a),
    decreases a.len(),
{
    if a.len() > 0 && b.len() > 0 && a[0] == b[0] {
        let ta = a.subrange(1, a.len() as int);
        let tb = b.subrange(1, b.len() as int);
        if ta == tb {
            assert(a =~= seq![a[0]] + ta);
            assert(b =~= seq![b[0]] + tb);
        }
        lemma_lex_total(ta, tb);
    } else if a.len() == 0 && b.len() == 0 {
        assert(a =~= b);
    }
}

/// Whether `a` comes before `b` byte-wise.
fn bytes_lt(a: &Vec<u8>, b: &Vec<u8>) -> (r: bool)
    ensures
        r == lex_lt(a@, b@),
{
    let mut i: usize = 0;
    assert(a@.subrange(0, a.len() as int) =~= a@);
    assert(b@.subrange(0, b.len() as int) =~= b@);
    while i < a.len() && i < b.len()
        invariant
            i <= a.len(),
            i <= b.len(),
            lex_lt(a@, b@) == lex_lt(
                a@.subrange(i as int, a.len() as int),
                b@.subrange(i as int, b.len() as int),
            ),
        decreases a.len() - i,
    {
        let ghost ta = a@.subrange(i as int, a.len() as int);
        let ghost tb = b@.subrange(i as int, b.len() as int);
        if a[i] != b[i] {
            return a[i] < b[i];
        }
        proof {
            assert(ta.subrange(1, ta.len() as int) =~= a@.subrange(i + 1, a.len() as int));
            assert(tb.subrange(1, tb.len() as int) =~= b@.subrange(i + 1, b.len() as int));
        }
        i = i + 1;
    }
    i < b.len()
}

proof fn lemma_entries_map_at(p: Seq<(Seq<u8>, Val)>, i: int)
    requires
        names_unique(p),
        0 <= i < p.len(),
    ensures
        entries_map(p).contains_key(p[i].0),
        entries_map(p)[p[i].0] == p[i].1,
    decreases p.len(),
{
    if i < p.len() - 1 {
        lemma_entries_map_at(p.subrange(0, p.len() - 1), i);
    }
}

proof fn lemma_sorted_unique(p: Seq<(Seq<u8>, Val)>)
    requires
        names_sorted(p),
    ensures
        names_unique(p),
{
    assert forall|i: int, j: int| 0 <= i < j < p.len() implies p[i].0 != p[j].0 by {
        assert(lex_lt(p[i].0, p[j].0));
        lemma_lex_irreflexive(p[i].0);
    }
}

/// Sets `name` to `value` in a field list kept sorted by name, as an ordered
/// map's insert does: an entry of that name is overwritten, otherwise one is
/// put in its place in the order.
pub fn insert_sorted(fields: &mut Vec<Field>, name: Vec<u8>, value: MessageValue)
    requires
        names_sorted(fields_model(old(fields)@)),
    ensures
        names_sorted(fields_model(final(fields)@)),
        field_map(final(fields)@) == field_map(old(fields)@).insert(name@, value@),
{
    let ghost p = fields_model(fields@);
    proof {
        lemma_fields_model(fields@);
        lemma_sorted_unique(p);
    }
    let mut i: usize = 0;
    while i < fields.len() && bytes_lt(&fields[i].name, &name)
        invariant
            i <= fields.len(),
            fields@ == old(fields)@,
            p == fields_model(fields@),
            p.len() == fields.len(),
            forall|j: int| 0 <= j < i ==> lex_lt(#[trigger] p[j].0, name@),
        decreases fields.len() - i,
    {
        proof {
            lemma_fields_model(fields@);
        }
        i = i + 1;
    }
    let ghost v = value@;
    let ghost k = name@;
    if i < fields.len() && bytes_equal(&fields[i].name, &name) {
        fields.set(i, Field { name, value });
        proof {
            lemma_fields_model(fields@);
            assert(fields_model(fields@) =~= p.update(i as int, (p[i as int].0, v)));
            lemma_entries_map_update(p, i as int, v);
        }
    } else {
        proof {
            if i < p.len() {
                lemma_lex_total(p[i as int].0, k);
                assert forall|j: int| i <= j < p.len() implies lex_lt(k, #[trigger] p[j].0) by {
                    if j > i {
                        lemma_lex_transitive(k, p[i as int].0, p[j].0);
                    }
                }
            }
        }
        fields.insert(i, Field { name, value });
        proof {
            lemma_fields_model(fields@);
            let q = fields_model(fields@);
            assert(q =~= p.insert(i as int, (k, v)));
            assert(names_sorted(q)) by {
                assert forall|a: int, b: int| 0 <= a < b < q.len() implies lex_lt(
                    #[trigger] q[a].0,
                    #[trigger] q[b].0,
                ) by {
                    if b < i {
                    } else if a < i && b == i {
                    } else if a < i {
                        lemma_lex_transitive(q[a].0, k, q[b].0);
                    } else if a == i {
                    } else {
                    }
                }
            }
            lemma_sorted_unique(q);
            assert(entries_map(q) =~= entries_map(p).insert(k, v)) by {
                assert forall|x: Seq<u8>| #[trigger] entries_map(q).contains_key(x) <==> entries_map(
                    p,
                ).insert(k, v).contains_key(x) by {
                    lemma_entries_map_dom(q, x);
                    lemma_entries_map_dom(p, x);
                    if exists|j: int| 0 <= j < p.len() && p[j].0 == x {
                        let j = choose|j: int| 0 <= j < p.len() && p[j].0 == x;
                        if j < i {
                            assert(q[j].0 == x);
                        } else {
                            assert(q[j + 1].0 == x);
                        }
                    }
                    if exists|j: int| 0 <= j < q.len() && q[j].0 == x {
                        let j = choose|j: int| 0 <= j < q.len() && q[j].0 == x;
                        if j < i {
                            assert(p[j].0 == x);
                        } else if j > i {
                            assert(p[j - 1].0 == x);
                        }
                    }
                    assert(q[i as int].0 == k);
                }
                assert forall|x: Seq<u8>| #[trigger] entries_map(q).contains_key(x) implies entries_map(
                    q,
                )[x] == entries_map(p).insert(k, v)[x] by {
                    lemma_entries_map_dom(q, x);
                    let j = choose|j: int| 0 <= j < q.len() && q[j].0 == x;
                    lemma_entries_map_at(q, j);
                    if j != i {
                        assert(q[j].0 != q[i as int].0);
                    }
                    if j < i {
                        lemma_entries_map_at(p, j);
                    } else if j > i {
                        lemma_entries_map_at(p, j - 1);
                    }
                }
            }
        }
    }
}

/// A preserved copy of a query's original structure, for rebuilding it exactly:
/// the frames of the command, each of its own kind.
#[derive(Debug)]
pub enum ASTHolder {
    Commands(Vec<RedisFrame>),
}

/// A classified query.
#[derive(Debug)]
pub struct QueryMessage {
    pub query_string: Vec<u8>,
    /// Keyspace and table, where the protocol has them.
    pub namespace: Vec<Vec<u8>>,
    pub primary_key: Vec<Field>,
    pub query_values: Option<Vec<Field>>,
    pub projection: Option<Vec<Vec<u8>>>,
    pub query_type: QueryType,
    pub ast: Option<ASTHolder>,
}

/// A classified response.
#[derive(Debug)]
pub struct QueryResponse {
    /// The query this response answers, where the caller has correlated it.
    pub matching_query: Option<Box<Message>>,
    pub result: Option<MessageValue>,
    pub error: Option<MessageValue>,
    pub response_meta: Option<MessageValue>,
}

#[derive(Debug)]
pub enum MessageDetails {
    Query(QueryMessage),
    Response(QueryResponse),
    Unknown,
}

/// A frame of either protocol.
#[derive(Debug)]
pub enum RawFrame {
    Redis(RedisFrame),
    Cassandra(CassandraFrame),
}

/// A frame of the tabular protocol: its fixed header and its body.
#[derive(Debug)]
pub struct CassandraFrame {
    pub version: u8,
    pub flags: u8,
    pub stream: u16,
    pub opcode: u8,
    pub tracing_id: Option<Vec<u8>>,
    pub body: Vec<u8>,
}

/// A message: its original frame, whether it was rewritten, and what it means.
#[derive(Debug)]
pub struct Message {
    pub details: MessageDetails,
    pub modified: bool,
    pub original: RawFrame,
}

impl QueryMessage {
    /// A query with nothing extracted.
    pub open spec fn is_empty_query(&self) -> bool {
        &&& self.query_string@.len() == 0
        &&& self.namespace@.len() == 0
        &&& self.primary_key@.len() == 0
        &&& self.query_values is None
        &&& self.projection is None
        &&& self.query_type == QueryType::Write
        &&& self.ast is None
    }

    pub fn empty() -> (r: QueryMessage)
        ensures
            r.is_empty_query(),
    {
        QueryMessage {
            query_string: Vec::new(),
            namespace: Vec::new(),
            primary_key: Vec::new(),
            query_values: None,
            projection: None,
            query_type: QueryType::Write,
            ast: None,
        }
    }
}

impl QueryResponse {
    pub open spec fn is_empty_response(&self) -> bool {
        &&& self.matching_query is None
        &&& self.result is None
        &&& self.error is None
        &&& self.response_meta is None
    }

    pub fn empty() -> (r: QueryResponse)
        ensures
            r.is_empty_response(),
    {
        QueryResponse { matching_query: None, result: None, error: None, response_meta: None }
    }
}

impl Message {
    pub fn new(details: MessageDetails, modified: bool, original: RawFrame) -> (r: Message)
        ensures
            r.details == details,
            r.modified == modified,
            r.original == original,
    {
        Message { details, modified, original }
    }
}

} // verus!
