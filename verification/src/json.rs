//! JSON documents.
//!
//! [`Json`] is the executable tree; [`JsonValue`] is the mathematical value it
//! stands for. An object is stored as a list of members and stands for a map
//! from keys to values, so two trees that list the same members in a different
//! order are the same document.

use vstd::prelude::*;

verus! {

/// The mathematical value of a JSON number.
pub enum NumberValue {
    /// An integer.
    Int(int),
    /// A number with a fraction or an exponent, by its literal.
    Real(Seq<char>),
}

/// The mathematical value of a JSON document.
pub enum JsonValue {
    Null,
    Bool(bool),
    Number(NumberValue),
    Text(Seq<char>),
    Array(Seq<JsonValue>),
    Object(Map<Seq<char>, JsonValue>),
}

/// A JSON number.
#[derive(Debug)]
pub enum JsonNumber {
    /// A non-negative integer.
    Unsigned(u64),
    /// An integer that may be negative.
    Signed(i64),
    /// Any other number, held as its literal.
    Real(String),
}

/// A JSON document.
#[derive(Debug)]
pub enum Json {
    Null,
    Bool(bool),
    Number(JsonNumber),
    Text(String),
    Array(Vec<Json>),
    /// The members of an object. In a well-formed document no key occurs twice.
    Object(Vec<(String, Json)>),
}

impl View for JsonNumber {
    type V = NumberValue;

    open spec fn view(&self) -> NumberValue {
        match self {
            JsonNumber::Unsigned(n) => NumberValue::Int(*n as int),
            JsonNumber::Signed(n) => NumberValue::Int(*n as int),
            JsonNumber::Real(s) => NumberValue::Real(s@),
        }
    }
}

/// Some member of `fields` has the key `k`.
pub open spec fn has_key(fields: Seq<(String, Json)>, k: Seq<char>) -> bool {
    exists|i: int| 0 <= i < fields.len() && (#[trigger] fields[i]).0@ == k
}

/// The position of a member of `fields` with the key `k`, if there is one.
pub open spec fn key_index(fields: Seq<(String, Json)>, k: Seq<char>) -> int {
    choose|i: int| 0 <= i < fields.len() && (#[trigger] fields[i]).0@ == k
}

/// No two members of `fields` share a key.
pub open spec fn distinct_keys(fields: Seq<(String, Json)>) -> bool {
    forall|i: int, j: int|
        0 <= i < j < fields.len() ==> (#[trigger] fields[i]).0@ != (#[trigger] fields[j]).0@
}

impl View for Json {
    type V = JsonValue;

    open spec fn view(&self) -> JsonValue
        decreases self,
    {
        match self {
            Json::Null => JsonValue::Null,
            Json::Bool(b) => JsonValue::Bool(*b),
            Json::Number(n) => JsonValue::Number(n@),
            Json::Text(s) => JsonValue::Text(s@),
            Json::Array(items) => JsonValue::Array(
                Seq::new(
                    (*items)@.len(),
                    |i: int|
                        if 0 <= i < (*items)@.len() {
                            (*items)@[i]@
                        } else {
                            JsonValue::Null
                        },
                ),
            ),
            Json::Object(fields) => JsonValue::Object(
                Map::new(
                    |k: Seq<char>| has_key((*fields)@, k),
                    |k: Seq<char>|
                        {
                            let i = key_index((*fields)@, k);
                            if 0 <= i < (*fields)@.len() {
                                (*fields)@[i].1@
                            } else {
                                JsonValue::Null
                            }
                        },
                ),
            ),
        }
    }
}

impl Json {
    /// Every object in the document, at any depth, lists each key once.
    pub open spec fn wf(&self) -> bool
        decreases self,
    {
        match self {
            Json::Array(items) => forall|i: int|
                0 <= i < (*items)@.len() ==> (#[trigger] (*items)@[i]).wf(),
            Json::Object(fields) => {
                &&& distinct_keys((*fields)@)
                &&& forall|i: int|
                    0 <= i < (*fields)@.len() ==> (#[trigger] (*fields)@[i]).1.wf()
            },
            _ => true,
        }
    }
}

/// The members of a well-formed object, read as a map: each member's key is in
/// the domain and maps to that member's value, and nothing else is in it.
pub proof fn lemma_object_view(fields: Vec<(String, Json)>)
    requires
        distinct_keys(fields@),
    ensures
        Json::Object(fields)@ is Object,
        forall|k: Seq<char>|
            Json::Object(fields)@->Object_0.dom().contains(k) <==> has_key(fields@, k),
        forall|i: int|
            0 <= i < fields@.len() ==> {
                &&& Json::Object(fields)@->Object_0.dom().contains((#[trigger] fields@[i]).0@)
                &&& Json::Object(fields)@->Object_0[fields@[i].0@] == fields@[i].1@
            },
{
    let m = Json::Object(fields)@->Object_0;
    assert forall|i: int| 0 <= i < fields@.len() implies {
        &&& m.dom().contains((#[trigger] fields@[i]).0@)
        &&& m[fields@[i].0@] == fields@[i].1@
    } by {
        let k = fields@[i].0@;
        assert(has_key(fields@, k));
        let j = key_index(fields@, k);
        assert(0 <= j < fields@.len() && fields@[j].0@ == k);
        if j < i {
            assert(fields@[j].0@ != fields@[i].0@);
        } else if i < j {
            assert(fields@[i].0@ != fields@[j].0@);
        }
    }
}

/// The elements of an array, read as a sequence.
pub proof fn lemma_array_view(items: Vec<Json>)
    ensures
        Json::Array(items)@ is Array,
        Json::Array(items)@->Array_0.len() == items@.len(),
        forall|i: int|
            0 <= i < items@.len() ==> Json::Array(items)@->Array_0[i] == (#[trigger] items@[i])@,
{
}


/// Whether two numbers have the same value.
pub fn number_eq(a: &JsonNumber, b: &JsonNumber) -> (r: bool)
    ensures
        r == (a@ == b@),
{
    match (a, b) {
        (JsonNumber::Unsigned(x), JsonNumber::Unsigned(y)) => *x == *y,
        (JsonNumber::Signed(x), JsonNumber::Signed(y)) => *x == *y,
        (JsonNumber::Unsigned(x), JsonNumber::Signed(y)) => *y >= 0 && *x == (*y as u64),
        (JsonNumber::Signed(x), JsonNumber::Unsigned(y)) => *x >= 0 && (*x as u64) == *y,
        (JsonNumber::Real(s), JsonNumber::Real(t)) => *s == *t,
        _ => false,
    }
}

/// A copy of a number.
pub fn number_clone(a: &JsonNumber) -> (r: JsonNumber)
    ensures
        r@ == a@,
{
    match a {
        JsonNumber::Unsigned(x) => JsonNumber::Unsigned(*x),
        JsonNumber::Signed(x) => JsonNumber::Signed(*x),
        JsonNumber::Real(s) => JsonNumber::Real(s.clone()),
    }
}

/// The position of the member of `fields` whose key is `key`.
pub fn find_field(fields: &Vec<(String, Json)>, key: &String) -> (r: Option<usize>)
    ensures
        match r {
            Some(i) => i < fields@.len() && fields@[i as int].0@ == key@,
            None => !has_key(fields@, key@),
        },
{
    let mut i: usize = 0;
    while i < fields.len()
        invariant
            i <= fields.len(),
            forall|j: int| 0 <= j < i ==> (#[trigger] fields@[j]).0@ != key@,
        decreases fields.len() - i,
    {
        if fields[i].0 == *key {
            return Some(i);
        }
        i += 1;
    }
    None
}

impl Json {
    /// An object without members.
    pub fn empty_object() -> (r: Json)
        ensures
            r.wf(),
            r@ == JsonValue::Object(Map::<Seq<char>, JsonValue>::empty()),
    {
        let fields: Vec<(String, Json)> = Vec::new();
        proof {
            lemma_object_view(fields);
            assert(Json::Object(fields)@->Object_0 =~= Map::<Seq<char>, JsonValue>::empty());
        }
        Json::Object(fields)
    }

    /// Whether the two documents have the same value: the same scalars, the
    /// same elements in the same order, the same members in any order.
    pub fn equals(&self, other: &Json) -> (r: bool)
        requires
            self.wf(),
            other.wf(),
        ensures
            r == (self@ == other@),
        decreases self,
    {
        match (self, other) {
            (Json::Null, Json::Null) => true,
            (Json::Bool(x), Json::Bool(y)) => *x == *y,
            (Json::Number(x), Json::Number(y)) => number_eq(x, y),
            (Json::Text(x), Json::Text(y)) => *x == *y,
            (Json::Array(xs), Json::Array(ys)) => {
                proof {
                    lemma_array_view(*xs);
                    lemma_array_view(*ys);
                }
                if xs.len() != ys.len() {
                    return false;
                }
                let mut i: usize = 0;
                while i < xs.len()
                    invariant
                        i <= xs.len(),
                        xs.len() == ys.len(),
                        decreases_to!(self => xs),
                        *self == Json::Array(*xs),
                        *other == Json::Array(*ys),
                        self.wf(),
                        other.wf(),
                        forall|j: int| 0 <= j < i ==> (#[trigger] xs@[j])@ == ys@[j]@,
                    decreases xs.len() - i,
                {
                    proof {
                        lemma_array_view(*xs);
                        lemma_array_view(*ys);
                    }
                    if !xs[i].equals(&ys[i]) {
                        return false;
                    }
                    i += 1;
                }
                assert(self@->Array_0 =~= other@->Array_0);
                true
            },
            (Json::Object(xs), Json::Object(ys)) => {
                let ghost a = self@->Object_0;
                let ghost b = other@->Object_0;
                proof {
                    lemma_object_view(*xs);
                    lemma_object_view(*ys);
                }
                let mut i: usize = 0;
                while i < xs.len()
                    invariant
                        i <= xs.len(),
                        decreases_to!(self => xs),
                        *self == Json::Object(*xs),
                        *other == Json::Object(*ys),
                        self.wf(),
                        other.wf(),
                        a == self@->Object_0,
                        b == other@->Object_0,
                        forall|j: int|
                            0 <= j < i ==> b.dom().contains((#[trigger] xs@[j]).0@) && b[xs@[j].0@]
                                == xs@[j].1@,
                    decreases xs.len() - i,
                {
                    proof {
                        lemma_object_view(*xs);
                        lemma_object_view(*ys);
                    }
                    match find_field(ys, &xs[i].0) {
                        None => {
                            assert(a.dom().contains(xs@[i as int].0@));
                            return false;
                        },
                        Some(j) => {
                            assert(b[ys@[j as int].0@] == ys@[j as int].1@);
                            assert(a[xs@[i as int].0@] == xs@[i as int].1@);
                            if !xs[i].1.equals(&ys[j].1) {
                                return false;
                            }
                        },
                    }
                    i += 1;
                }
                let mut k: usize = 0;
                while k < ys.len()
                    invariant
                        k <= ys.len(),
                        *self == Json::Object(*xs),
                        *other == Json::Object(*ys),
                        self.wf(),
                        other.wf(),
                        a == self@->Object_0,
                        b == other@->Object_0,
                        forall|j: int| 0 <= j < k ==> a.dom().contains((#[trigger] ys@[j]).0@),
                    decreases ys.len() - k,
                {
                    proof {
                        lemma_object_view(*xs);
                        lemma_object_view(*ys);
                    }
                    if find_field(xs, &ys[k].0).is_none() {
                        assert(b.dom().contains(ys@[k as int].0@));
                        return false;
                    }
                    k += 1;
                }
                proof {
                    lemma_object_view(*xs);
                    lemma_object_view(*ys);
                    assert forall|key: Seq<char>| a.dom().contains(key) <==> b.dom().contains(
                        key,
                    ) by {
                        if a.dom().contains(key) {
                            let p = key_index(xs@, key);
                            assert(xs@[p].0@ == key);
                        }
                        if b.dom().contains(key) {
                            let p = key_index(ys@, key);
                            assert(ys@[p].0@ == key);
                        }
                    }
                    assert forall|key: Seq<char>| a.dom().contains(key) implies a[key]
                        == b[key] by {
                        let p = key_index(xs@, key);
                        assert(xs@[p].0@ == key);
                    }
                    assert(a =~= b);
                }
                true
            },
            _ => false,
        }
    }

    /// Whether every object in the document lists each key once.
    pub fn is_well_formed(&self) -> (r: bool)
        ensures
            r == self.wf(),
        decreases self,
    {
        match self {
            Json::Array(items) => {
                let mut i: usize = 0;
                while i < items.len()
                    invariant
                        i <= items.len(),
                        decreases_to!(self => items),
                        *self == Json::Array(*items),
                        forall|j: int| 0 <= j < i ==> (#[trigger] items@[j]).wf(),
                    decreases items.len() - i,
                {
                    if !items[i].is_well_formed() {
                        proof {
                            if self.wf() {
                                lemma_array_wf(*items);
                            }
                        }
                        return false;
                    }
                    i += 1;
                }
                assert(Json::Array(*items).wf());
                true
            },
            Json::Object(fields) => {
                let mut i: usize = 0;
                while i < fields.len()
                    invariant
                        i <= fields.len(),
                        decreases_to!(self => fields),
                        *self == Json::Object(*fields),
                        forall|j: int| 0 <= j < i ==> (#[trigger] fields@[j]).1.wf(),
                        forall|a: int, b: int|
                            0 <= a < b < i ==> (#[trigger] fields@[a]).0@ != (
                            #[trigger] fields@[b]).0@,
                    decreases fields.len() - i,
                {
                    if !fields[i].1.is_well_formed() {
                        proof {
                            if self.wf() {
                                lemma_object_wf(*fields);
                            }
                        }
                        return false;
                    }
                    let mut k: usize = 0;
                    while k < i
                        invariant
                            k <= i < fields.len(),
                            *self == Json::Object(*fields),
                            forall|a: int|
                                0 <= a < k ==> (#[trigger] fields@[a]).0@ != fields@[i as int].0@,
                        decreases i - k,
                    {
                        if fields[k].0 == fields[i].0 {
                            proof {
                                if self.wf() {
                                    lemma_object_wf(*fields);
                                    assert(fields@[k as int].0@ != fields@[i as int].0@);
                                }
                            }
                            return false;
                        }
                        k += 1;
                    }
                    i += 1;
                }
                assert(distinct_keys(fields@));
                assert(Json::Object(*fields).wf());
                true
            },
            _ => true,
        }
    }

    /// A copy of the document.
    pub fn deep_clone(&self) -> (r: Json)
        requires
            self.wf(),
        ensures
            r.wf(),
            r@ == self@,
        decreases self,
    {
        match self {
            Json::Null => Json::Null,
            Json::Bool(b) => Json::Bool(*b),
            Json::Number(n) => Json::Number(number_clone(n)),
            Json::Text(s) => Json::Text(s.clone()),
            Json::Array(items) => {
                let mut out: Vec<Json> = Vec::new();
                let mut i: usize = 0;
                while i < items.len()
                    invariant
                        i <= items.len(),
                        decreases_to!(self => items),
                        *self == Json::Array(*items),
                        self.wf(),
                        out@.len() == i,
                        forall|j: int|
                            0 <= j < i ==> (#[trigger] out@[j]).wf() && out@[j]@ == items@[j]@,
                    decreases items.len() - i,
                {
                    proof {
                        lemma_array_wf(*items);
                    }
                    let c = items[i].deep_clone();
                    out.push(c);
                    i += 1;
                }
                proof {
                    lemma_array_view(*items);
                    lemma_array_view(out);
                    assert(Json::Array(out)@->Array_0 =~= self@->Array_0);
                }
                Json::Array(out)
            },
            Json::Object(fields) => {
                let mut out: Vec<(String, Json)> = Vec::new();
                let mut i: usize = 0;
                while i < fields.len()
                    invariant
                        i <= fields.len(),
                        decreases_to!(self => fields),
                        *self == Json::Object(*fields),
                        self.wf(),
                        out@.len() == i,
                        forall|j: int|
                            0 <= j < i ==> {
                                &&& (#[trigger] out@[j]).1.wf()
                                &&& out@[j].1@ == fields@[j].1@
                                &&& out@[j].0@ == fields@[j].0@
                            },
                    decreases fields.len() - i,
                {
                    let k = fields[i].0.clone();
                    let c = fields[i].1.deep_clone();
                    out.push((k, c));
                    i += 1;
                }
                proof {
                    lemma_same_members(out, *fields);
                }
                Json::Object(out)
            },
        }
    }

    /// The value of the member `key`, where the document is an object that
    /// has one.
    pub fn get(&self, key: &String) -> (r: Option<&Json>)
        requires
            self.wf(),
        ensures
            match r {
                Some(v) => {
                    &&& self@ is Object
                    &&& self@->Object_0.dom().contains(key@)
                    &&& v@ == self@->Object_0[key@]
                    &&& v.wf()
                },
                None => !(self@ is Object && self@->Object_0.dom().contains(key@)),
            },
    {
        match self {
            Json::Object(fields) => {
                proof {
                    lemma_object_view(*fields);
                }
                match find_field(fields, key) {
                    Some(i) => Some(&fields[i].1),
                    None => None,
                }
            },
            _ => None,
        }
    }

    /// The object `self` with the member `key` set to `value`: replaced where
    /// the key is present, added where it is not.
    pub fn with_member(&self, key: &String, value: Json) -> (r: Json)
        requires
            self.wf(),
            self@ is Object,
            value.wf(),
        ensures
            r.wf(),
            r@ == JsonValue::Object(self@->Object_0.insert(key@, value@)),
    {
        match self {
            Json::Object(fields) => {
                let found = find_field(fields, key);
                let mut out: Vec<(String, Json)> = Vec::new();
                let mut i: usize = 0;
                while i < fields.len()
                    invariant
                        i <= fields.len(),
                        *self == Json::Object(*fields),
                        self.wf(),
                        out@.len() == i,
                        match found {
                            Some(p) => p < fields@.len() && fields@[p as int].0@ == key@,
                            None => !has_key(fields@, key@),
                        },
                        forall|j: int|
                            0 <= j < i && found != Some(j as usize) ==> {
                                &&& (#[trigger] out@[j]).1.wf()
                                &&& out@[j].1@ == fields@[j].1@
                                &&& out@[j].0@ == fields@[j].0@
                            },
                        forall|j: int|
                            0 <= j < i && found == Some(j as usize) ==> {
                                &&& (#[trigger] out@[j]).1.wf()
                                &&& out@[j].0@ == fields@[j].0@
                            },
                    decreases fields.len() - i,
                {
                    let k = fields[i].0.clone();
                    if found == Some(i) {
                        out.push((k, Json::Null));
                    } else {
                        let c = fields[i].1.deep_clone();
                        out.push((k, c));
                    }
                    i += 1;
                }
                let ghost m = self@->Object_0;
                match found {
                    Some(p) => {
                        out.set(p, (key.clone(), value));
                    },
                    None => {
                        out.push((key.clone(), value));
                    },
                }
                proof {
                    lemma_object_view(*fields);
                    assert(distinct_keys(out@)) by {
                        assert forall|x: int, y: int| 0 <= x < y < out@.len() implies (
                        #[trigger] out@[x]).0@ != (#[trigger] out@[y]).0@ by {
                            if y < fields@.len() {
                                assert(fields@[x].0@ != fields@[y].0@);
                            } else {
                                assert(fields@[x].0@ == out@[x].0@);
                            }
                        }
                    }
                    lemma_object_view(out);
                    let n = Json::Object(out)@->Object_0;
                    assert forall|k: Seq<char>| n.dom().contains(k) <==> m.insert(
                        key@,
                        value@,
                    ).dom().contains(k) by {
                        if n.dom().contains(k) {
                            let q = key_index(out@, k);
                            assert(out@[q].0@ == k);
                            if q < fields@.len() {
                                assert(fields@[q].0@ == k || k == key@);
                            }
                        }
                        if m.dom().contains(k) {
                            let q = key_index(fields@, k);
                            assert(fields@[q].0@ == k);
                            assert(out@[q].0@ == k);
                        }
                        if k == key@ {
                            match found {
                                Some(p) => {
                                    assert(out@[p as int].0@ == k);
                                },
                                None => {
                                    assert(out@[out@.len() - 1].0@ == k);
                                },
                            }
                        }
                    }
                    assert forall|k: Seq<char>| n.dom().contains(k) implies n[k] == m.insert(
                        key@,
                        value@,
                    )[k] by {
                        let q = key_index(out@, k);
                        assert(out@[q].0@ == k);
                        assert(n[out@[q].0@] == out@[q].1@);
                        if q < fields@.len() {
                            assert(m[fields@[q].0@] == fields@[q].1@);
                        }
                    }
                    assert(n =~= m.insert(key@, value@));
                }
                Json::Object(out)
            },
            _ => Json::Null,
        }
    }
}

/// Two member lists with the same keys and values at each position stand for
/// the same object.
pub proof fn lemma_same_members(a: Vec<(String, Json)>, b: Vec<(String, Json)>)
    requires
        distinct_keys(b@),
        a@.len() == b@.len(),
        forall|j: int|
            0 <= j < a@.len() ==> (#[trigger] a@[j]).0@ == b@[j].0@ && a@[j].1@ == b@[j].1@,
    ensures
        distinct_keys(a@),
        Json::Object(a)@ == Json::Object(b)@,
{
    assert(distinct_keys(a@)) by {
        assert forall|x: int, y: int| 0 <= x < y < a@.len() implies (#[trigger] a@[x]).0@ != (
        #[trigger] a@[y]).0@ by {
            assert(b@[x].0@ != b@[y].0@);
        }
    }
    lemma_object_view(a);
    lemma_object_view(b);
    let m = Json::Object(a)@->Object_0;
    let n = Json::Object(b)@->Object_0;
    assert forall|k: Seq<char>| m.dom().contains(k) <==> n.dom().contains(k) by {
        if m.dom().contains(k) {
            let q = key_index(a@, k);
            assert(b@[q].0@ == k);
        }
        if n.dom().contains(k) {
            let q = key_index(b@, k);
            assert(a@[q].0@ == k);
        }
    }
    assert forall|k: Seq<char>| m.dom().contains(k) implies m[k] == n[k] by {
        let q = key_index(a@, k);
        assert(a@[q].0@ == k);
        assert(b@[q].0@ == k);
    }
    assert(m =~= n);
}


/// The sequence of values that a list of documents stands for.
pub open spec fn values_of(items: Seq<Json>) -> Seq<JsonValue> {
    Seq::new(items.len(), |i: int| items[i]@)
}

/// An array stands for the values of its elements.
pub proof fn lemma_array_values(items: Vec<Json>)
    ensures
        Json::Array(items)@ == JsonValue::Array(values_of(items@)),
{
    assert(Json::Array(items)@->Array_0 =~= values_of(items@));
}

/// In a well-formed array every element is well formed.
pub proof fn lemma_array_wf(items: Vec<Json>)
    requires
        Json::Array(items).wf(),
    ensures
        forall|i: int| 0 <= i < items@.len() ==> (#[trigger] items@[i]).wf(),
{
    let v = Json::Array(items);
    assert(v->Array_0@.len() == items@.len());
}

/// In a well-formed object the keys differ and every value is well formed.
pub proof fn lemma_object_wf(fields: Vec<(String, Json)>)
    requires
        Json::Object(fields).wf(),
    ensures
        distinct_keys(fields@),
        forall|i: int| 0 <= i < fields@.len() ==> (#[trigger] fields@[i]).1.wf(),
{
}

/// A list of members stands for `target` where it lists each key of `target`
/// once, with the value that `target` gives it, and nothing else.
pub proof fn lemma_object_is(fields: Vec<(String, Json)>, target: Map<Seq<char>, JsonValue>)
    requires
        distinct_keys(fields@),
        forall|i: int|
            0 <= i < fields@.len() ==> target.dom().contains((#[trigger] fields@[i]).0@)
                && target[fields@[i].0@] == fields@[i].1@,
        forall|k: Seq<char>| target.dom().contains(k) ==> has_key(fields@, k),
    ensures
        Json::Object(fields)@ == JsonValue::Object(target),
{
    lemma_object_view(fields);
    let m = Json::Object(fields)@->Object_0;
    assert forall|k: Seq<char>| m.dom().contains(k) implies target.dom().contains(k) by {
        let q = key_index(fields@, k);
        assert(fields@[q].0@ == k);
    }
    assert forall|k: Seq<char>| m.dom().contains(k) implies m[k] == target[k] by {
        let q = key_index(fields@, k);
        assert(fields@[q].0@ == k);
    }
    assert(m =~= target);
}

/// What `serde_json` reads from a text: the document, or the message of the
/// error it reports.
pub uninterp spec fn parsed_json(text: Seq<char>) -> Result<JsonValue, Seq<char>>;

/// The text that `serde_json` writes for a document, indented.
pub uninterp spec fn rendered_json(value: JsonValue) -> Seq<char>;

/// `serde_json::Value`, carried between the wrappers below and never looked
/// into.
#[verifier::external_type_specification]
#[verifier::external_body]
pub struct ExValue(serde_json::Value);

/// `serde_json::Number`, carried between the wrappers below and never looked
/// into.
#[verifier::external_type_specification]
#[verifier::external_body]
pub struct ExNumber(serde_json::Number);

/// Reads a `serde_json::Number` into a number of this library: an integer
/// where `as_u64` or `as_i64` gives one, else the literal that its `Display`
/// writes.
#[verifier::external_body]
fn number_of_value(n: &serde_json::Number) -> JsonNumber {
    match (n.as_u64(), n.as_i64()) {
        (Some(u), _) => JsonNumber::Unsigned(u),
        (_, Some(i)) => JsonNumber::Signed(i),
        _ => JsonNumber::Real(n.to_string()),
    }
}

/// Reads a `serde_json::Value` into a document of this library, variant by
/// variant. The members of a `serde_json::Map` have distinct keys, so the
/// result is well formed.
#[verifier::external_body]
fn json_of_value(v: &serde_json::Value) -> (j: Json)
    ensures
        j.wf(),
{
    match v {
        serde_json::Value::Null => Json::Null,
        serde_json::Value::Bool(b) => Json::Bool(*b),
        serde_json::Value::Number(n) => Json::Number(number_of_value(n)),
        serde_json::Value::String(s) => Json::Text(s.clone()),
        serde_json::Value::Array(a) => Json::Array(a.iter().map(json_of_value).collect()),
        serde_json::Value::Object(m) => Json::Object(
            m.iter().map(|(k, x)| (k.clone(), json_of_value(x))).collect(),
        ),
    }
}

/// Writes a number of this library as a `serde_json::Value`. A literal that
/// `serde_json` does not read as a number becomes `null`.
#[verifier::external_body]
fn value_of_number(n: &JsonNumber) -> serde_json::Value {
    match n {
        JsonNumber::Unsigned(u) => serde_json::Value::from(*u),
        JsonNumber::Signed(i) => serde_json::Value::from(*i),
        JsonNumber::Real(s) => serde_json::from_str::<serde_json::Number>(s).map(
            serde_json::Value::Number,
        ).unwrap_or(serde_json::Value::Null),
    }
}

/// Writes a document of this library as a `serde_json::Value`, variant by
/// variant.
#[verifier::external_body]
fn value_of_json(j: &Json) -> serde_json::Value {
    match j {
        Json::Null => serde_json::Value::Null,
        Json::Bool(b) => serde_json::Value::Bool(*b),
        Json::Number(n) => value_of_number(n),
        Json::Text(s) => serde_json::Value::String(s.clone()),
        Json::Array(a) => serde_json::Value::Array(a.iter().map(value_of_json).collect()),
        Json::Object(m) => serde_json::Value::Object(
            m.iter().map(|(k, x)| (k.clone(), value_of_json(x))).collect(),
        ),
    }
}

/// `serde_json::from_str` at `serde_json::Value`: the document that the text
/// holds, or the message of the error. What it returns depends on the text
/// alone.
#[verifier::external_body]
fn parse_text(text: &str) -> (r: Result<Json, String>)
    ensures
        match r {
            Ok(j) => j.wf() && parsed_json(text@) == Ok::<JsonValue, Seq<char>>(j@),
            Err(e) => parsed_json(text@) == Err::<JsonValue, Seq<char>>(e@),
        },
{
    match serde_json::from_str::<serde_json::Value>(text) {
        Ok(v) => Ok(json_of_value(&v)),
        Err(e) => Err(e.to_string()),
    }
}

/// `serde_json::to_string_pretty` on a `serde_json::Value`: the indented text
/// of the document. Members are written in the order of their keys, so the
/// text depends on the document's value alone. Writing a `Value` to a string
/// does not fail.
#[verifier::external_body]
fn render_text(j: &Json) -> (r: String)
    requires
        j.wf(),
    ensures
        r@ == rendered_json(j@),
{
    serde_json::to_string_pretty(&value_of_json(j)).unwrap_or_default()
}

impl Json {
    /// Reads a document from its text.
    pub fn parse(text: &str) -> (r: Result<Json, String>)
        ensures
            match r {
                Ok(j) => j.wf() && parsed_json(text@) == Ok::<JsonValue, Seq<char>>(j@),
                Err(e) => parsed_json(text@) == Err::<JsonValue, Seq<char>>(e@),
            },
    {
        parse_text(text)
    }

    /// Writes the document as indented text.
    pub fn render(&self) -> (r: String)
        requires
            self.wf(),
        ensures
            r@ == rendered_json(self@),
    {
        render_text(self)
    }
}

} // verus!
