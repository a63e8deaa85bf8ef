//! A JSON document model. Objects keep each key once; their meaning is a map
//! from keys to values. Numbers are held as the text of their literal, so
//! that no floating-point value is needed to carry them through.

use vstd::prelude::*;

verus! {

/// A JSON value.
pub enum Json {
    Null,
    Bool(bool),
    /// A number, by the text of its literal (such as `"0.5"` or `"65536"`).
    Number(String),
    Str(String),
    Array(Vec<Json>),
    Object(JsonObject),
}

/// A JSON object: key/value pairs in which no key occurs twice.
pub struct JsonObject {
    fields: Vec<(String, Json)>,
}

/// The mathematical meaning of a JSON value.
pub enum JsonView {
    Null,
    Bool(bool),
    Number(Seq<char>),
    Str(Seq<char>),
    Array(Seq<JsonView>),
    Object(Map<Seq<char>, JsonView>),
}

/// The meaning of a sequence of values.
pub open spec fn items_view(items: Seq<Json>) -> Seq<JsonView>
    decreases items,
{
    if items.len() == 0 {
        seq![]
    } else {
        items_view(items.subrange(0, items.len() - 1)).push(
            json_view(items[items.len() - 1]),
        )
    }
}

/// The meaning of key/value pairs; a later pair wins over an earlier one with
/// the same key (which a `JsonObject` never holds).
pub open spec fn fields_view(fields: Seq<(String, Json)>) -> Map<Seq<char>, JsonView>
    decreases fields,
{
    if fields.len() == 0 {
        Map::empty()
    } else {
        let last = fields[fields.len() - 1];
        fields_view(fields.subrange(0, fields.len() - 1)).insert(last.0@, json_view(last.1))
    }
}

/// The meaning of a JSON value.
pub closed spec fn json_view(j: Json) -> JsonView
    decreases j,
{
    match j {
        Json::Null => JsonView::Null,
        Json::Bool(b) => JsonView::Bool(b),
        Json::Number(n) => JsonView::Number(n@),
        Json::Str(s) => JsonView::Str(s@),
        Json::Array(items) => JsonView::Array(items_view(items@)),
        Json::Object(o) => JsonView::Object(fields_view(o.fields@)),
    }
}

impl View for Json {
    type V = JsonView;

    open spec fn view(&self) -> JsonView {
        json_view(*self)
    }
}

impl View for JsonObject {
    type V = Map<Seq<char>, JsonView>;

    closed spec fn view(&self) -> Map<Seq<char>, JsonView> {
        fields_view(self.fields@)
    }
}

/// What the meaning of each kind of value is.
pub broadcast proof fn lemma_json_view(j: Json)
    ensures
        #[trigger] json_view(j) == match j {
            Json::Null => JsonView::Null,
            Json::Bool(b) => JsonView::Bool(b),
            Json::Number(n) => JsonView::Number(n@),
            Json::Str(s) => JsonView::Str(s@),
            Json::Array(items) => JsonView::Array(items_view(items@)),
            Json::Object(o) => JsonView::Object(o@),
        },
{
}

/// Whether no key occurs twice among `fields`.
pub open spec fn keys_unique(fields: Seq<(String, Json)>) -> bool {
    forall|i: int, j: int|
        0 <= i < fields.len() && 0 <= j < fields.len() && i != j ==> #[trigger] fields[i].0@
            != #[trigger] fields[j].0@
}

// ---------------------------------------------------------------------------
// Lemmas on the meaning of key/value pairs
// ---------------------------------------------------------------------------

proof fn lemma_fields_dom(fields: Seq<(String, Json)>, k: Seq<char>)
    ensures
        fields_view(fields).contains_key(k) <==> exists|i: int|
            0 <= i < fields.len() && #[trigger] fields[i].0@ == k,
    decreases fields.len(),
{
    if fields.len() > 0 {
        let init = fields.subrange(0, fields.len() - 1);
        lemma_fields_dom(init, k);
        if fields_view(fields).contains_key(k) {
            if fields[fields.len() - 1].0@ != k {
                let i = choose|i: int| 0 <= i < init.len() && #[trigger] init[i].0@ == k;
                assert(fields[i].0@ == k);
            }
        }
        if exists|i: int| 0 <= i < fields.len() && #[trigger] fields[i].0@ == k {
            let i = choose|i: int| 0 <= i < fields.len() && #[trigger] fields[i].0@ == k;
            if i < fields.len() - 1 {
                assert(init[i].0@ == k);
            }
        }
    }
}

proof fn lemma_fields_value(fields: Seq<(String, Json)>, i: int)
    requires
        keys_unique(fields),
        0 <= i < fields.len(),
    ensures
        fields_view(fields).contains_key(fields[i].0@),
        fields_view(fields)[fields[i].0@] == json_view(fields[i].1),
    decreases fields.len(),
{
    let init = fields.subrange(0, fields.len() - 1);
    if i < fields.len() - 1 {
        assert(keys_unique(init)) by {
            assert forall|a: int, b: int|
                0 <= a < init.len() && 0 <= b < init.len() && a != b implies #[trigger] init[a].0@
                != #[trigger] init[b].0@ by {
                assert(init[a] == fields[a] && init[b] == fields[b]);
            }
        }
        lemma_fields_value(init, i);
        assert(fields[i].0@ != fields[fields.len() - 1].0@);
    }
}

proof fn lemma_unique_init(fields: Seq<(String, Json)>)
    requires
        keys_unique(fields),
        fields.len() > 0,
    ensures
        keys_unique(fields.subrange(0, fields.len() - 1)),
        !fields_view(fields.subrange(0, fields.len() - 1)).contains_key(
            fields[fields.len() - 1].0@,
        ),
{
    let init = fields.subrange(0, fields.len() - 1);
    assert forall|a: int, b: int|
        0 <= a < init.len() && 0 <= b < init.len() && a != b implies #[trigger] init[a].0@
        != #[trigger] init[b].0@ by {
        assert(init[a] == fields[a] && init[b] == fields[b]);
    }
    lemma_fields_dom(init, fields[fields.len() - 1].0@);
    if fields_view(init).contains_key(fields[fields.len() - 1].0@) {
        let i = choose|i: int|
            0 <= i < init.len() && #[trigger] init[i].0@ == fields[fields.len() - 1].0@;
        assert(fields[i].0@ == fields[fields.len() - 1].0@);
    }
}

proof fn lemma_fields_update(fields: Seq<(String, Json)>, i: int, v: Json)
    requires
        keys_unique(fields),
        0 <= i < fields.len(),
    ensures
        keys_unique(fields.update(i, (fields[i].0, v))),
        fields_view(fields.update(i, (fields[i].0, v))) == fields_view(fields).insert(
            fields[i].0@,
            json_view(v),
        ),
    decreases fields.len(),
{
    let k = fields[i].0;
    let upd = fields.update(i, (k, v));
    let n = fields.len();
    let init = fields.subrange(0, n - 1);
    assert forall|a: int, b: int|
        0 <= a < upd.len() && 0 <= b < upd.len() && a != b implies #[trigger] upd[a].0@
        != #[trigger] upd[b].0@ by {
        assert(upd[a].0@ == fields[a].0@ && upd[b].0@ == fields[b].0@);
    }
    lemma_unique_init(fields);
    if i == n - 1 {
        assert(upd.subrange(0, n - 1) =~= init);
        assert(fields_view(upd) =~= fields_view(fields).insert(k@, json_view(v)));
    } else {
        lemma_fields_update(init, i, v);
        assert(upd.subrange(0, n - 1) =~= init.update(i, (k, v)));
        assert(k@ != fields[n - 1].0@);
        assert(fields_view(upd) =~= fields_view(fields).insert(k@, json_view(v)));
    }
}

proof fn lemma_fields_remove(fields: Seq<(String, Json)>, i: int)
    requires
        keys_unique(fields),
        0 <= i < fields.len(),
    ensures
        keys_unique(fields.remove(i)),
        fields_view(fields.remove(i)) == fields_view(fields).remove(fields[i].0@),
    decreases fields.len(),
{
    let k = fields[i].0@;
    let rem = fields.remove(i);
    let n = fields.len();
    let init = fields.subrange(0, n - 1);
    assert forall|a: int, b: int|
        0 <= a < rem.len() && 0 <= b < rem.len() && a != b implies #[trigger] rem[a].0@
        != #[trigger] rem[b].0@ by {
        let fa = if a < i {
            a
        } else {
            a + 1
        };
        let fb = if b < i {
            b
        } else {
            b + 1
        };
        assert(rem[a] == fields[fa] && rem[b] == fields[fb]);
    }
    lemma_unique_init(fields);
    if i == n - 1 {
        assert(rem =~= init);
        assert(fields_view(rem) =~= fields_view(fields).remove(k));
    } else {
        lemma_fields_remove(init, i);
        assert(rem.subrange(0, n - 2) =~= init.remove(i));
        assert(rem[n - 2] == fields[n - 1]);
        assert(k != fields[n - 1].0@);
        assert(fields_view(rem) =~= fields_view(fields).remove(k));
    }
}

proof fn lemma_fields_push(fields: Seq<(String, Json)>, k: String, v: Json)
    requires
        keys_unique(fields),
        !fields_view(fields).contains_key(k@),
    ensures
        keys_unique(fields.push((k, v))),
        fields_view(fields.push((k, v))) == fields_view(fields).insert(k@, json_view(v)),
{
    let p = fields.push((k, v));
    assert(p.subrange(0, p.len() - 1) =~= fields);
    lemma_fields_dom(fields, k@);
    assert forall|a: int, b: int|
        0 <= a < p.len() && 0 <= b < p.len() && a != b implies #[trigger] p[a].0@
        != #[trigger] p[b].0@ by {
        if a == fields.len() {
            assert(fields[b].0@ != k@);
        } else if b == fields.len() {
            assert(fields[a].0@ != k@);
        } else {
            assert(p[a] == fields[a] && p[b] == fields[b]);
        }
    }
}

// ---------------------------------------------------------------------------
// Objects
// ---------------------------------------------------------------------------

impl JsonObject {
    #[verifier::type_invariant]
    spec fn unique_keys(self) -> bool {
        keys_unique(self.fields@)
    }

    /// The key/value pairs, in their stored order.
    pub closed spec fn pairs(self) -> Seq<(String, Json)> {
        self.fields@
    }

    /// An object with no keys.
    pub fn new() -> (o: JsonObject)
        ensures
            o@ == Map::<Seq<char>, JsonView>::empty(),
    {
        JsonObject { fields: Vec::new() }
    }

    /// Position of `key` among the pairs.
    fn find(&self, key: &String) -> (r: Option<usize>)
        ensures
            r matches Some(i) ==> i < self.fields@.len() && self.fields@[i as int].0@ == key@,
            r is None ==> !self@.contains_key(key@),
    {
        let mut i: usize = 0;
        while i < self.fields.len()
            invariant
                i <= self.fields@.len(),
                forall|j: int| 0 <= j < i ==> #[trigger] self.fields@[j].0@ != key@,
            decreases self.fields.len() - i,
        {
            if self.fields[i].0 == *key {
                return Some(i);
            }
            i = i + 1;
        }
        proof {
            lemma_fields_dom(self.fields@, key@);
        }
        None
    }

    /// The value under `key`, if any.
    pub fn get(&self, key: &str) -> (r: Option<&Json>)
        ensures
            r is Some <==> self@.contains_key(key@),
            r matches Some(v) ==> v@ == self@[key@],
    {
        proof {
            use_type_invariant(self);
        }
        let k = key.to_string();
        match self.find(&k) {
            Some(i) => {
                proof {
                    lemma_fields_value(self.fields@, i as int);
                }
                Some(&self.fields[i].1)
            },
            None => None,
        }
    }

    /// Whether `key` is present.
    pub fn contains_key(&self, key: &str) -> (b: bool)
        ensures
            b == self@.contains_key(key@),
    {
        self.get(key).is_some()
    }

    /// Sets `key` to `value`, replacing any value it had.
    pub fn insert(&mut self, key: String, value: Json)
        ensures
            final(self)@ == old(self)@.insert(key@, value@),
    {
        proof {
            use_type_invariant(&*self);
        }
        match self.find(&key) {
            Some(i) => {
                proof {
                    lemma_fields_update(self.fields@, i as int, value);
                }
                let k = self.fields[i].0.clone();
                let mut fields: Vec<(String, Json)> = Vec::new();
                std::mem::swap(&mut fields, &mut self.fields);
                fields.set(i, (k, value));
                self.fields = fields;
            },
            None => {
                proof {
                    lemma_fields_push(self.fields@, key, value);
                }
                let mut fields: Vec<(String, Json)> = Vec::new();
                std::mem::swap(&mut fields, &mut self.fields);
                fields.push((key, value));
                self.fields = fields;
            },
        }
    }

    /// Removes `key`, handing back the value it had.
    pub fn remove(&mut self, key: &str) -> (r: Option<Json>)
        ensures
            final(self)@ == old(self)@.remove(key@),
            r is Some <==> old(self)@.contains_key(key@),
            r matches Some(v) ==> v@ == old(self)@[key@],
    {
        proof {
            use_type_invariant(&*self);
        }
        let k = key.to_string();
        match self.find(&k) {
            Some(i) => {
                proof {
                    lemma_fields_value(self.fields@, i as int);
                    lemma_fields_remove(self.fields@, i as int);
                }
                let mut fields: Vec<(String, Json)> = Vec::new();
                std::mem::swap(&mut fields, &mut self.fields);
                let (_, v) = fields.remove(i);
                self.fields = fields;
                Some(v)
            },
            None => {
                assert(old(self)@.remove(key@) =~= old(self)@);
                None
            },
        }
    }

    /// A copy of this object, with the same meaning.
    pub fn duplicate(&self) -> (r: JsonObject)
        ensures
            r@ == self@,
        decreases self,
    {
        proof {
            use_type_invariant(self);
        }
        let mut out: Vec<(String, Json)> = Vec::new();
        let mut i: usize = 0;
        while i < self.fields.len()
            invariant
                i <= self.fields@.len(),
                keys_unique(self.fields@),
                out@.len() == i,
                forall|j: int| 0 <= j < i ==> #[trigger] out@[j].0@ == self.fields@[j].0@,
                fields_view(out@) == fields_view(self.fields@.take(i as int)),
            decreases self.fields.len() - i,
        {
            let k = self.fields[i].0.clone();
            let v = self.fields[i].1.duplicate();
            let ghost before = out@;
            out.push((k, v));
            proof {
                let t = self.fields@.take(i + 1);
                assert(t.subrange(0, i as int) =~= self.fields@.take(i as int));
                assert(out@.subrange(0, i as int) =~= before);
            }
            i = i + 1;
        }
        assert(self.fields@.take(self.fields@.len() as int) =~= self.fields@);
        assert(keys_unique(out@)) by {
            assert forall|a: int, b: int|
                0 <= a < out@.len() && 0 <= b < out@.len() && a != b implies #[trigger] out@[a].0@
                != #[trigger] out@[b].0@ by {
                assert(out@[a].0@ == self.fields@[a].0@);
                assert(out@[b].0@ == self.fields@[b].0@);
            }
        }
        JsonObject { fields: out }
    }

    /// The key/value pairs, each key once, in their stored order.
    pub fn entries(&self) -> (r: &Vec<(String, Json)>)
        ensures
            r@ == self.pairs(),
            keys_unique(r@),
            fields_view(r@) == self@,
    {
        proof {
            use_type_invariant(self);
        }
        &self.fields
    }
}

/// Appending a value appends its meaning.
pub proof fn lemma_items_push(items: Seq<Json>, j: Json)
    ensures
        items_view(items.push(j)) == items_view(items).push(json_view(j)),
{
    assert(items.push(j).subrange(0, items.len() as int) =~= items);
}

/// The meaning of a sequence of values has one entry per value.
pub proof fn lemma_items_index(items: Seq<Json>, i: int)
    requires
        0 <= i < items.len(),
    ensures
        items_view(items).len() == items.len(),
        items_view(items)[i] == json_view(items[i]),
    decreases items.len(),
{
    let init = items.subrange(0, items.len() - 1);
    lemma_items_len(init);
    if i < items.len() - 1 {
        lemma_items_index(init, i);
    }
}

/// The meaning of a sequence of values is as long as the sequence.
pub proof fn lemma_items_len(items: Seq<Json>)
    ensures
        items_view(items).len() == items.len(),
    decreases items.len(),
{
    if items.len() > 0 {
        lemma_items_len(items.subrange(0, items.len() - 1));
    }
}

// ---------------------------------------------------------------------------
// Values
// ---------------------------------------------------------------------------

impl Json {
    /// A string value.
    pub fn string(s: &str) -> (j: Json)
        ensures
            j@ == JsonView::Str(s@),
    {
        Json::Str(s.to_string())
    }

    /// A number value from the text of its literal.
    pub fn number(literal: &str) -> (j: Json)
        ensures
            j@ == JsonView::Number(literal@),
    {
        Json::Number(literal.to_string())
    }

    /// The object's value under `key`; `None` for a missing key or when this
    /// value is no object (`serde_json::Value::get` with a string index).
    pub fn get(&self, key: &str) -> (r: Option<&Json>)
        ensures
            r is Some <==> view_get(self@, key@) is Some,
            r matches Some(v) ==> Some(v@) == view_get(self@, key@),
    {
        match self {
            Json::Object(o) => o.get(key),
            _ => None,
        }
    }

    /// An array of the given values.
    pub fn array(items: Vec<Json>) -> (j: Json)
        ensures
            j@ == JsonView::Array(items_view(items@)),
    {
        Json::Array(items)
    }

    /// A copy of this value, with the same meaning.
    pub fn duplicate(&self) -> (r: Json)
        ensures
            r@ == self@,
        decreases self,
    {
        match self {
            Json::Null => Json::Null,
            Json::Bool(b) => Json::Bool(*b),
            Json::Number(n) => Json::Number(n.clone()),
            Json::Str(s) => Json::Str(s.clone()),
            Json::Array(items) => {
                let mut out: Vec<Json> = Vec::new();
                let mut i: usize = 0;
                while i < items.len()
                    invariant
                        *self == Json::Array(*items),
                        i <= items@.len(),
                        items_view(out@) == items_view(items@.take(i as int)),
                    decreases items.len() - i,
                {
                    proof {
                        assert(decreases_to!(*self => (*self)->Array_0));
                        assert(decreases_to!(*items => items@));
                        assert(decreases_to!(items@ => items@[i as int]));
                    }
                    let c = items[i].duplicate();
                    proof {
                        lemma_items_push(out@, c);
                        lemma_items_push(items@.take(i as int), items@[i as int]);
                        assert(items@.take(i + 1) =~= items@.take(i as int).push(items@[i as int]));
                    }
                    out.push(c);
                    i = i + 1;
                }
                assert(items@.take(items@.len() as int) =~= items@);
                Json::Array(out)
            },
            Json::Object(o) => Json::Object(o.duplicate()),
        }
    }

    /// The text of a string value (`Value::as_str`).
    pub fn as_str(&self) -> (r: Option<&String>)
        ensures
            r is Some <==> self@ is Str,
            r matches Some(s) ==> self@ == JsonView::Str(s@),
    {
        match self {
            Json::Str(s) => Some(s),
            _ => None,
        }
    }
}

/// `j`'s value under `key` when `j` is an object that has it.
pub open spec fn view_get(j: JsonView, key: Seq<char>) -> Option<JsonView> {
    match j {
        JsonView::Object(m) => if m.contains_key(key) {
            Some(m[key])
        } else {
            None
        },
        _ => None,
    }
}

} // verus!
