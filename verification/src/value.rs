use vstd::prelude::*;

verus! {

/// Mathematical model of a JSON-like value.
pub enum SpecValue {
    Null,
    Bool(bool),
    Int(int),
    Str(Seq<char>),
    Arr(Seq<SpecValue>),
    Obj(Seq<(Seq<char>, SpecValue)>),
}

/// A JSON-like value: the record shape exchanged with the telemetry source
/// and shipped to the overlay service. Numeric content is integral.
#[derive(Debug)]
pub enum Value {
    Null,
    Bool(bool),
    Number(i64),
    Str(String),
    Array(Vec<Value>),
    Object(Record),
}

/// A keyed record: an ordered list of (key, value) entries.
#[derive(Debug)]
pub struct Record {
    pub(crate) entries: Vec<(String, Value)>,
}

pub closed spec fn spec_value_of(v: Value) -> SpecValue
    decreases v,
{
    match v {
        Value::Null => SpecValue::Null,
        Value::Bool(b) => SpecValue::Bool(b),
        Value::Number(n) => SpecValue::Int(n as int),
        Value::Str(s) => SpecValue::Str(s@),
        Value::Array(vs) => SpecValue::Arr(spec_values_of(vs@)),
        Value::Object(r) => SpecValue::Obj(spec_entries_of(r.entries@)),
    }
}

pub open spec fn spec_values_of(s: Seq<Value>) -> Seq<SpecValue>
    decreases s,
{
    if s.len() == 0 {
        Seq::empty()
    } else {
        spec_values_of(s.drop_last()).push(spec_value_of(s.last()))
    }
}

pub open spec fn spec_entries_of(s: Seq<(String, Value)>) -> Seq<(Seq<char>, SpecValue)>
    decreases s,
{
    if s.len() == 0 {
        Seq::empty()
    } else {
        spec_entries_of(s.drop_last()).push((s.last().0@, spec_value_of(s.last().1)))
    }
}

impl View for Value {
    type V = SpecValue;

    open spec fn view(&self) -> SpecValue {
        spec_value_of(*self)
    }
}

/// One unfolding step of the value model: what each constructor denotes.
pub broadcast proof fn lemma_value_view(v: Value)
    ensures
        #[trigger] spec_value_of(v) == match v {
            Value::Null => SpecValue::Null,
            Value::Bool(b) => SpecValue::Bool(b),
            Value::Number(n) => SpecValue::Int(n as int),
            Value::Str(s) => SpecValue::Str(s@),
            Value::Array(vs) => SpecValue::Arr(spec_values_of(vs@)),
            Value::Object(r) => SpecValue::Obj(r@),
        },
{
}

impl View for Record {
    type V = Seq<(Seq<char>, SpecValue)>;

    closed spec fn view(&self) -> Seq<(Seq<char>, SpecValue)> {
        spec_entries_of(self.entries@)
    }
}

/// What a record denotes: the abstract entries of its backing vector.
pub(crate) proof fn lemma_record_view(r: &Record)
    ensures
        r@ == spec_entries_of(r.entries@),
{
}

pub proof fn lemma_spec_values_of(s: Seq<Value>)
    ensures
        spec_values_of(s).len() == s.len(),
        forall|i: int| 0 <= i < s.len() ==> spec_values_of(s)[i] == spec_value_of(s[i]),
    decreases s.len(),
{
    if s.len() > 0 {
        lemma_spec_values_of(s.drop_last());
    }
}

pub proof fn lemma_spec_entries_of(s: Seq<(String, Value)>)
    ensures
        spec_entries_of(s).len() == s.len(),
        forall|i: int| 0 <= i < s.len() ==> spec_entries_of(s)[i] == (s[i].0@, spec_value_of(
            s[i].1,
        )),
    decreases s.len(),
{
    if s.len() > 0 {
        lemma_spec_entries_of(s.drop_last());
    }
}

/// Whether a keyed entry sequence holds the key `k`.
pub open spec fn spec_entries_contains_key(s: Seq<(Seq<char>, SpecValue)>, k: Seq<char>) -> bool {
    exists|i: int| 0 <= i < s.len() && s[i].0 == k
}

/// The value stored under `k`: the first matching entry.
pub open spec fn spec_entries_get(s: Seq<(Seq<char>, SpecValue)>, k: Seq<char>) -> Option<
    SpecValue,
>
    decreases s.len(),
{
    if s.len() == 0 {
        None
    } else if s[0].0 == k {
        Some(s[0].1)
    } else {
        spec_entries_get(s.drop_first(), k)
    }
}

/// Insertion with replace-in-place semantics: an existing entry for `k` keeps
/// its position and takes the new value; otherwise the entry is appended.
pub open spec fn spec_entries_insert(
    s: Seq<(Seq<char>, SpecValue)>,
    k: Seq<char>,
    v: SpecValue,
) -> Seq<(Seq<char>, SpecValue)>
    decreases s.len(),
{
    if s.len() == 0 {
        seq![(k, v)]
    } else if s[0].0 == k {
        seq![(k, v)] + s.drop_first()
    } else {
        seq![s[0]] + spec_entries_insert(s.drop_first(), k, v)
    }
}

pub proof fn lemma_entries_get_contains(s: Seq<(Seq<char>, SpecValue)>, k: Seq<char>)
    ensures
        spec_entries_get(s, k) is Some <==> spec_entries_contains_key(s, k),
    decreases s.len(),
{
    if s.len() > 0 && s[0].0 != k {
        lemma_entries_get_contains(s.drop_first(), k);
        assert(spec_entries_contains_key(s.drop_first(), k)
            <==> spec_entries_contains_key(s, k)) by {
            if spec_entries_contains_key(s, k) {
                let i = choose|i: int| 0 <= i < s.len() && s[i].0 == k;
                assert(s.drop_first()[i - 1].0 == k);
            }
            if spec_entries_contains_key(s.drop_first(), k) {
                let i = choose|i: int| 0 <= i < s.drop_first().len() && s.drop_first()[i].0 == k;
                assert(s[i + 1].0 == k);
            }
        }
    }
}

/// A key that differs from the head's can only be found in the tail.
pub proof fn lemma_contains_shift(s: Seq<(Seq<char>, SpecValue)>, k: Seq<char>)
    requires
        s.len() > 0,
        s[0].0 != k,
    ensures
        spec_entries_contains_key(s, k) <==> spec_entries_contains_key(s.drop_first(), k),
{
    if spec_entries_contains_key(s, k) {
        let i = choose|i: int| 0 <= i < s.len() && s[i].0 == k;
        assert(s.drop_first()[i - 1].0 == k);
    }
    if spec_entries_contains_key(s.drop_first(), k) {
        let i = choose|i: int| 0 <= i < s.drop_first().len() && s.drop_first()[i].0 == k;
        assert(s[i + 1].0 == k);
    }
}

/// After an insertion the inserted value is found under its key.
pub proof fn lemma_insert_get_same(s: Seq<(Seq<char>, SpecValue)>, k: Seq<char>, v: SpecValue)
    ensures
        spec_entries_get(spec_entries_insert(s, k, v), k) == Some(v),
    decreases s.len(),
{
    let t = spec_entries_insert(s, k, v);
    if s.len() == 0 {
        assert(t[0].0 == k);
    } else if s[0].0 == k {
        assert(t[0].0 == k);
    } else {
        lemma_insert_get_same(s.drop_first(), k, v);
        assert(t[0] == s[0]);
        assert(t.drop_first() =~= spec_entries_insert(s.drop_first(), k, v));
    }
}

/// An insertion leaves every other key's lookup unchanged.
pub proof fn lemma_insert_get_other(
    s: Seq<(Seq<char>, SpecValue)>,
    k: Seq<char>,
    v: SpecValue,
    k2: Seq<char>,
)
    requires
        k2 != k,
    ensures
        spec_entries_get(spec_entries_insert(s, k, v), k2) == spec_entries_get(s, k2),
    decreases s.len(),
{
    let t = spec_entries_insert(s, k, v);
    if s.len() == 0 {
        assert(t[0].0 == k);
        assert(t.drop_first() =~= Seq::<(Seq<char>, SpecValue)>::empty());
        assert(spec_entries_get(t.drop_first(), k2) is None);
    } else if s[0].0 == k {
        assert(t[0].0 == k);
        assert(t.drop_first() =~= s.drop_first());
    } else {
        assert(t[0] == s[0]);
        assert(t.drop_first() =~= spec_entries_insert(s.drop_first(), k, v));
        if s[0].0 != k2 {
            lemma_insert_get_other(s.drop_first(), k, v, k2);
        }
    }
}

/// An insertion grows the record exactly when the key was absent.
pub proof fn lemma_insert_len(s: Seq<(Seq<char>, SpecValue)>, k: Seq<char>, v: SpecValue)
    ensures
        spec_entries_insert(s, k, v).len() == if spec_entries_contains_key(s, k) {
            s.len()
        } else {
            s.len() + 1
        },
    decreases s.len(),
{
    let t = spec_entries_insert(s, k, v);
    if s.len() == 0 {
        assert(!spec_entries_contains_key(s, k));
    } else if s[0].0 == k {
        assert(spec_entries_contains_key(s, k));
    } else {
        lemma_insert_len(s.drop_first(), k, v);
        lemma_contains_shift(s, k);
    }
}

/// The keys present after an insertion are the old ones plus the new one.
pub proof fn lemma_insert_contains(
    s: Seq<(Seq<char>, SpecValue)>,
    k: Seq<char>,
    v: SpecValue,
    k2: Seq<char>,
)
    ensures
        spec_entries_contains_key(spec_entries_insert(s, k, v), k2) <==> (k2 == k
            || spec_entries_contains_key(s, k2)),
{
    let t = spec_entries_insert(s, k, v);
    lemma_entries_get_contains(t, k2);
    lemma_entries_get_contains(s, k2);
    if k2 == k {
        lemma_insert_get_same(s, k, v);
    } else {
        lemma_insert_get_other(s, k, v, k2);
    }
}

impl Value {
    /// The diagnostic tag for the value's shape.
    pub open spec fn spec_type_tag(v: SpecValue) -> Seq<char> {
        match v {
            SpecValue::Arr(_) => "array"@,
            SpecValue::Null => "null"@,
            SpecValue::Bool(_) => "bool"@,
            SpecValue::Int(_) => "number"@,
            SpecValue::Str(_) => "string"@,
            SpecValue::Obj(_) => "object"@,
        }
    }

    pub fn type_tag(&self) -> (r: &'static str)
        ensures
            r@ == Self::spec_type_tag(self@),
    {
        match self {
            Value::Array(_) => "array",
            Value::Null => "null",
            Value::Bool(_) => "bool",
            Value::Number(_) => "number",
            Value::Str(_) => "string",
            Value::Object(_) => "object",
        }
    }

    pub fn is_null(&self) -> (b: bool)
        ensures
            b == (self@ is Null),
    {
        matches!(self, Value::Null)
    }

    pub fn is_string(&self) -> (b: bool)
        ensures
            b == (self@ is Str),
    {
        matches!(self, Value::Str(_))
    }

    pub fn is_number(&self) -> (b: bool)
        ensures
            b == (self@ is Int),
    {
        matches!(self, Value::Number(_))
    }

    pub fn is_boolean(&self) -> (b: bool)
        ensures
            b == (self@ is Bool),
    {
        matches!(self, Value::Bool(_))
    }

    /// A structural copy: the result denotes the same abstract value.
    pub fn deep_clone(&self) -> (r: Value)
        ensures
            r@ == self@,
        decreases *self,
    {
        match self {
            Value::Null => Value::Null,
            Value::Bool(b) => Value::Bool(*b),
            Value::Number(n) => Value::Number(*n),
            Value::Str(s) => Value::Str(s.clone()),
            Value::Array(vs) => Value::Array(clone_values(vs)),
            Value::Object(r) => Value::Object(Record { entries: clone_entries(&r.entries) }),
        }
    }
}

fn clone_values(vs: &Vec<Value>) -> (out: Vec<Value>)
    ensures
        spec_values_of(out@) == spec_values_of(vs@),
    decreases vs@,
{
    let mut out: Vec<Value> = Vec::new();
    let n = vs.len();
    for i in 0..n
        invariant
            n == vs@.len(),
            out@.len() == i,
            forall|j: int| 0 <= j < i ==> spec_value_of(out@[j]) == spec_value_of(vs@[j]),
    {
        let c = vs[i].deep_clone();
        out.push(c);
    }
    proof {
        lemma_spec_values_of(out@);
        lemma_spec_values_of(vs@);
        assert(spec_values_of(out@) =~= spec_values_of(vs@));
    }
    out
}

fn clone_entries(es: &Vec<(String, Value)>) -> (out: Vec<(String, Value)>)
    ensures
        spec_entries_of(out@) == spec_entries_of(es@),
    decreases es@,
{
    let mut out: Vec<(String, Value)> = Vec::new();
    let n = es.len();
    for i in 0..n
        invariant
            n == es@.len(),
            out@.len() == i,
            forall|j: int| 0 <= j < i ==> (out@[j].0@, spec_value_of(out@[j].1)) == (
                es@[j].0@,
                spec_value_of(es@[j].1),
            ),
    {
        let key = es[i].0.clone();
        let val = es[i].1.deep_clone();
        out.push((key, val));
    }
    proof {
        lemma_spec_entries_of(out@);
        lemma_spec_entries_of(es@);
        assert(spec_entries_of(out@) =~= spec_entries_of(es@));
    }
    out
}

impl Record {
    /// An empty record.
    pub fn new() -> (r: Record)
        ensures
            r@ =~= Seq::<(Seq<char>, SpecValue)>::empty(),
    {
        Record { entries: Vec::new() }
    }

    pub fn len(&self) -> (n: usize)
        ensures
            n == self@.len(),
    {
        proof {
            lemma_spec_entries_of(self.entries@);
        }
        self.entries.len()
    }

    pub fn key_at(&self, i: usize) -> (k: &String)
        requires
            i < self@.len(),
        ensures
            k@ == self@[i as int].0,
    {
        proof {
            lemma_spec_entries_of(self.entries@);
        }
        &self.entries[i].0
    }

    pub fn value_at(&self, i: usize) -> (v: &Value)
        requires
            i < self@.len(),
        ensures
            v@ == self@[i as int].1,
    {
        proof {
            lemma_spec_entries_of(self.entries@);
        }
        &self.entries[i].1
    }

    /// Looks a key up: the first entry whose key equals `k`.
    pub fn get(&self, k: &str) -> (r: Option<&Value>)
        ensures
            match r {
                Some(v) => spec_entries_get(self@, k@) == Some(v@),
                None => spec_entries_get(self@, k@) is None,
            },
    {
        proof {
            lemma_spec_entries_of(self.entries@);
        }
        let n = self.entries.len();
        for i in 0..n
            invariant
                n == self.entries@.len(),
                self@.len() == n,
                forall|j: int| 0 <= j < n ==> self@[j] == (self.entries@[j].0@, spec_value_of(
                    self.entries@[j].1,
                )),
                forall|j: int| 0 <= j < i ==> self@[j].0 != k@,
        {
            if crate::strutil::str_eq(self.entries[i].0.as_str(), k) {
                proof {
                    lemma_entries_get_first_match(self@, k@, i as int);
                }
                return Some(&self.entries[i].1);
            }
        }
        proof {
            lemma_entries_get_no_match(self@, k@);
        }
        None
    }

    pub fn contains_key(&self, k: &str) -> (b: bool)
        ensures
            b == spec_entries_contains_key(self@, k@),
    {
        proof {
            lemma_entries_get_contains(self@, k@);
        }
        match self.get(k) {
            Some(_) => true,
            None => false,
        }
    }

    /// Inserts `v` under `k` and hands back the value previously stored there,
    /// if any; an existing entry keeps its position.
    pub fn insert(&mut self, k: String, v: Value) -> (prev: Option<Value>)
        ensures
            final(self)@ == spec_entries_insert(old(self)@, k@, v@),
            match prev {
                Some(p) => spec_entries_get(old(self)@, k@) == Some(p@),
                None => spec_entries_get(old(self)@, k@) is None,
            },
    {
        proof {
            lemma_spec_entries_of(self.entries@);
        }
        let ghost s0 = self@;
        let n = self.entries.len();
        let mut i: usize = 0;
        while i < n
            invariant
                s0 == old(self)@,
                n == self.entries@.len(),
                self@ == s0,
                s0.len() == n,
                forall|j: int| 0 <= j < n ==> s0[j] == (self.entries@[j].0@, spec_value_of(
                    self.entries@[j].1,
                )),
                i <= n,
                forall|j: int| 0 <= j < i ==> s0[j].0 != k@,
            decreases n - i,
        {
            if crate::strutil::str_eq(self.entries[i].0.as_str(), k.as_str()) {
                let prev_val = self.entries[i].1.deep_clone();
                self.entries[i] = (k, v);
                proof {
                    lemma_entries_get_first_match(s0, k@, i as int);
                    lemma_spec_entries_of(self.entries@);
                    lemma_entries_insert_replace_at(s0, k@, v@, i as int);
                    assert(self@ =~= spec_entries_insert(s0, k@, v@));
                }
                return Some(prev_val);
            }
            i += 1;
        }
        self.entries.push((k, v));
        proof {
            lemma_entries_get_no_match(s0, k@);
            lemma_spec_entries_of(self.entries@);
            lemma_entries_insert_append(s0, k@, v@);
            assert(self@ =~= spec_entries_insert(s0, k@, v@));
        }
        None
    }

    /// A structural copy: the result denotes the same abstract record.
    pub fn deep_clone(&self) -> (r: Record)
        ensures
            r@ == self@,
        decreases *self,
    {
        Record { entries: clone_entries(&self.entries) }
    }
}

/// If the first match for `k` sits at position `i`, the lookup returns it.
pub proof fn lemma_entries_get_first_match(s: Seq<(Seq<char>, SpecValue)>, k: Seq<char>, i: int)
    requires
        0 <= i < s.len(),
        s[i].0 == k,
        forall|j: int| 0 <= j < i ==> s[j].0 != k,
    ensures
        spec_entries_get(s, k) == Some(s[i].1),
    decreases i,
{
    if i > 0 {
        lemma_entries_get_first_match(s.drop_first(), k, i - 1);
    }
}

/// Without a matching key the lookup comes back empty.
pub proof fn lemma_entries_get_no_match(s: Seq<(Seq<char>, SpecValue)>, k: Seq<char>)
    requires
        forall|j: int| 0 <= j < s.len() ==> s[j].0 != k,
    ensures
        spec_entries_get(s, k) is None,
    decreases s.len(),
{
    if s.len() > 0 {
        lemma_entries_get_no_match(s.drop_first(), k);
    }
}

/// Replacing the first match in place realizes `spec_entries_insert`.
pub proof fn lemma_entries_insert_replace_at(
    s: Seq<(Seq<char>, SpecValue)>,
    k: Seq<char>,
    v: SpecValue,
    i: int,
)
    requires
        0 <= i < s.len(),
        s[i].0 == k,
        forall|j: int| 0 <= j < i ==> s[j].0 != k,
    ensures
        spec_entries_insert(s, k, v) =~= s.update(i, (k, v)),
    decreases i,
{
    if i == 0 {
        assert(spec_entries_insert(s, k, v) =~= seq![(k, v)] + s.drop_first());
    } else {
        lemma_entries_insert_replace_at(s.drop_first(), k, v, i - 1);
        assert(spec_entries_insert(s, k, v) =~= seq![s[0]] + spec_entries_insert(
            s.drop_first(),
            k,
            v,
        ));
        assert(seq![s[0]] + s.drop_first().update(i - 1, (k, v)) =~= s.update(i, (k, v)));
    }
}

/// With no matching key the insertion appends at the end.
pub proof fn lemma_entries_insert_append(s: Seq<(Seq<char>, SpecValue)>, k: Seq<char>, v: SpecValue)
    requires
        forall|j: int| 0 <= j < s.len() ==> s[j].0 != k,
    ensures
        spec_entries_insert(s, k, v) =~= s.push((k, v)),
    decreases s.len(),
{
    if s.len() > 0 {
        lemma_entries_insert_append(s.drop_first(), k, v);
        assert(seq![s[0]] + s.drop_first().push((k, v)) =~= s.push((k, v)));
    }
}

} // verus!
