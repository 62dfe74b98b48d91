//! A JSON value type used to carry ORM-specific feature values through the IR.
use crate::text::{
    lemma_str_le_antisym, lemma_str_le_total, lemma_str_le_trans, spec_str_le, str_le,
};
use vstd::prelude::*;

verus! {

/// A JSON value.
///
/// Object members are kept sorted by key (code-point order, as a map ordered
/// by `String` keeps them) with pairwise distinct keys; inserting an existing
/// key replaces its value. A floating-point number is kept as the decimal text
/// it was written with.
#[derive(Debug, PartialEq)]
pub enum JsonValue {
    Null,
    Bool(bool),
    Int(i64),
    Float(String),
    String(String),
    Array(Vec<JsonValue>),
    Object(Vec<(String, JsonValue)>),
}

/// Mathematical model of a [`JsonValue`].
pub enum SpecJson {
    Null,
    Bool(bool),
    Int(i64),
    Float(Seq<char>),
    String(Seq<char>),
    Array(Seq<SpecJson>),
    Object(Seq<(Seq<char>, SpecJson)>),
}

/// The model of one JSON value.
pub open spec fn json_v(v: JsonValue) -> SpecJson
    decreases v,
{
    match v {
        JsonValue::Null => SpecJson::Null,
        JsonValue::Bool(b) => SpecJson::Bool(b),
        JsonValue::Int(n) => SpecJson::Int(n),
        JsonValue::Float(t) => SpecJson::Float(t@),
        JsonValue::String(s) => SpecJson::String(s@),
        JsonValue::Array(items) => SpecJson::Array(json_seq_v(items@)),
        JsonValue::Object(members) => SpecJson::Object(json_members_v(members@)),
    }
}

/// The models of a sequence of JSON values.
pub open spec fn json_seq_v(s: Seq<JsonValue>) -> Seq<SpecJson>
    decreases s,
{
    if s.len() == 0 {
        Seq::empty()
    } else {
        json_seq_v(s.drop_last()).push(json_v(s.last()))
    }
}

/// The models of a sequence of object members.
pub open spec fn json_members_v(s: Seq<(String, JsonValue)>) -> Seq<(Seq<char>, SpecJson)>
    decreases s,
{
    if s.len() == 0 {
        Seq::empty()
    } else {
        json_members_v(s.drop_last()).push((s.last().0@, json_v(s.last().1)))
    }
}

impl DeepView for JsonValue {
    type V = SpecJson;

    open spec fn deep_view(&self) -> SpecJson {
        json_v(*self)
    }
}

impl Clone for JsonValue {
    fn clone(&self) -> (r: Self)
        ensures
            json_v(r) == json_v(*self),
        decreases self,
    {
        match self {
            JsonValue::Null => JsonValue::Null,
            JsonValue::Bool(b) => JsonValue::Bool(*b),
            JsonValue::Int(n) => JsonValue::Int(*n),
            JsonValue::Float(t) => JsonValue::Float(t.clone()),
            JsonValue::String(s) => JsonValue::String(s.clone()),
            JsonValue::Array(items) => {
                let mut out: Vec<JsonValue> = Vec::new();
                let mut i: usize = 0;
                while i < items.len()
                    invariant
                        *self == JsonValue::Array(*items),
                        i <= items@.len(),
                        json_seq_v(out@) == json_seq_v(items@.take(i as int)),
                    decreases items@.len() - i,
                {
                    proof {
                        assert(decreases_to!(*self => (*self)->Array_0));
                        assert(decreases_to!(*items => items@));
                        assert(decreases_to!(items@ => items@[i as int]));
                    }
                    let c = items[i].clone();
                    proof {
                        lemma_json_seq_push(out@, c);
                        lemma_json_seq_push(items@.take(i as int), items@[i as int]);
                        assert(items@.take(i as int).push(items@[i as int]) =~= items@.take(i + 1));
                    }
                    out.push(c);
                    i = i + 1;
                }
                assert(items@.take(items@.len() as int) =~= items@);
                JsonValue::Array(out)
            },
            JsonValue::Object(members) => {
                let mut out: Vec<(String, JsonValue)> = Vec::new();
                let mut i: usize = 0;
                while i < members.len()
                    invariant
                        *self == JsonValue::Object(*members),
                        i <= members@.len(),
                        json_members_v(out@) == json_members_v(members@.take(i as int)),
                    decreases members@.len() - i,
                {
                    proof {
                        assert(decreases_to!(*self => (*self)->Object_0));
                        assert(decreases_to!(*members => members@));
                        assert(decreases_to!(members@ => members@[i as int]));
                        assert(decreases_to!(members@[i as int] => members@[i as int].1));
                    }
                    let k = members[i].0.clone();
                    let c = members[i].1.clone();
                    proof {
                        lemma_json_members_push(out@, k, c);
                        lemma_json_members_push(members@.take(i as int), members@[i as int].0, members@[i as int].1);
                        assert(members@.take(i as int).push((members@[i as int].0, members@[i as int].1)) =~= members@.take(i + 1));
                    }
                    out.push((k, c));
                    i = i + 1;
                }
                assert(members@.take(members@.len() as int) =~= members@);
                JsonValue::Object(out)
            },
        }
    }
}

/// The position of the member with key `k`, if any.
pub open spec fn member_index(m: Seq<(Seq<char>, SpecJson)>, k: Seq<char>) -> Option<int>
    decreases m.len(),
{
    if m.len() == 0 {
        None
    } else if m.last().0 == k {
        Some(m.len() - 1)
    } else {
        member_index(m.drop_last(), k)
    }
}

/// Where a new key goes: just after the last member whose key sorts strictly
/// before it.
pub open spec fn insert_pos(m: Seq<(Seq<char>, SpecJson)>, k: Seq<char>) -> int
    decreases m.len(),
{
    if m.len() == 0 {
        0
    } else if !spec_str_le(k, m.last().0) {
        m.len() as int
    } else {
        insert_pos(m.drop_last(), k)
    }
}

pub proof fn lemma_insert_pos(m: Seq<(Seq<char>, SpecJson)>, k: Seq<char>)
    ensures
        0 <= insert_pos(m, k) <= m.len(),
    decreases m.len(),
{
    if m.len() > 0 {
        lemma_insert_pos(m.drop_last(), k);
    }
}

/// Object insertion: replaces the value of an existing key, else inserts the
/// member in key order.
pub open spec fn members_insert(
    m: Seq<(Seq<char>, SpecJson)>,
    k: Seq<char>,
    v: SpecJson,
) -> Seq<(Seq<char>, SpecJson)> {
    match member_index(m, k) {
        Some(i) => m.update(i, (k, v)),
        None => m.insert(insert_pos(m, k), (k, v)),
    }
}

pub proof fn lemma_json_seq_push(s: Seq<JsonValue>, v: JsonValue)
    ensures
        json_seq_v(s.push(v)) == json_seq_v(s).push(json_v(v)),
{
    assert(s.push(v).drop_last() =~= s);
}

pub proof fn lemma_json_seq_len(s: Seq<JsonValue>)
    ensures
        json_seq_v(s).len() == s.len(),
    decreases s.len(),
{
    if s.len() > 0 {
        lemma_json_seq_len(s.drop_last());
    }
}

pub proof fn lemma_json_members_push(s: Seq<(String, JsonValue)>, k: String, v: JsonValue)
    ensures
        json_members_v(s.push((k, v))) == json_members_v(s).push((k@, json_v(v))),
{
    assert(s.push((k, v)).drop_last() =~= s);
}

pub proof fn lemma_json_members_len(s: Seq<(String, JsonValue)>)
    ensures
        json_members_v(s).len() == s.len(),
    decreases s.len(),
{
    if s.len() > 0 {
        lemma_json_members_len(s.drop_last());
    }
}

pub proof fn lemma_json_members_index(s: Seq<(String, JsonValue)>, i: int)
    requires
        0 <= i < s.len(),
    ensures
        json_members_v(s).len() == s.len(),
        json_members_v(s)[i] == (s[i].0@, json_v(s[i].1)),
    decreases s.len(),
{
    lemma_json_members_len(s);
    if i < s.len() - 1 {
        lemma_json_members_index(s.drop_last(), i);
    }
}

pub proof fn lemma_json_members_update(s: Seq<(String, JsonValue)>, i: int, k: String, v: JsonValue)
    requires
        0 <= i < s.len(),
    ensures
        json_members_v(s.update(i, (k, v))) == json_members_v(s).update(i, (k@, json_v(v))),
{
    let t = s.update(i, (k, v));
    lemma_json_members_len(s);
    lemma_json_members_len(t);
    assert forall|j: int| 0 <= j < s.len() implies json_members_v(t)[j] == json_members_v(s).update(
        i,
        (k@, json_v(v)),
    )[j] by {
        lemma_json_members_index(t, j);
        lemma_json_members_index(s, j);
    }
    assert(json_members_v(t) =~= json_members_v(s).update(i, (k@, json_v(v))));
}

pub proof fn lemma_json_members_insert(s: Seq<(String, JsonValue)>, i: int, k: String, v: JsonValue)
    requires
        0 <= i <= s.len(),
    ensures
        json_members_v(s.insert(i, (k, v))) == json_members_v(s).insert(i, (k@, json_v(v))),
{
    let t = s.insert(i, (k, v));
    lemma_json_members_len(s);
    lemma_json_members_len(t);
    assert forall|j: int| 0 <= j < t.len() implies json_members_v(t)[j] == json_members_v(s).insert(
        i,
        (k@, json_v(v)),
    )[j] by {
        lemma_json_members_index(t, j);
        if j < i {
            lemma_json_members_index(s, j);
        } else if j > i {
            lemma_json_members_index(s, j - 1);
        }
    }
    assert(json_members_v(t) =~= json_members_v(s).insert(i, (k@, json_v(v))));
}

/// Inserts a member into an object's member list, replacing the value of an
/// existing key and otherwise keeping the keys in order.
pub fn object_insert(members: &mut Vec<(String, JsonValue)>, key: String, value: JsonValue)
    ensures
        json_members_v(final(members)@) == members_insert(
            json_members_v(old(members)@),
            key@,
            json_v(value),
        ),
{
    let ghost m = json_members_v(members@);
    proof {
        lemma_json_members_len(members@);
        assert(m.take(m.len() as int) =~= m);
    }
    let n = members.len();
    let mut i: usize = n;
    while i > 0
        invariant
            i <= n == members@.len(),
            m == json_members_v(members@),
            members@ == old(members)@,
            m.len() == n,
            member_index(m, key@) == member_index(m.take(i as int), key@),
        decreases i,
    {
        proof {
            lemma_json_members_index(members@, i - 1);
            assert(m.take(i as int).drop_last() =~= m.take(i - 1));
        }
        if members[i - 1].0 == key {
            proof {
                assert(m[i - 1].0 == key@);
                assert(m.take(i as int).last() == m[i - 1]);
                assert(member_index(m.take(i as int), key@) == Some(i - 1));
                assert(member_index(m, key@) == Some(i - 1));
                lemma_json_members_update(members@, i - 1, key, value);
            }
            members.set(i - 1, (key, value));
            assert(json_members_v(members@) == m.update(i - 1, (key@, json_v(value))));
            return;
        }
        i = i - 1;
    }
    assert(m.take(0) =~= Seq::<(Seq<char>, SpecJson)>::empty());
    assert(m.take(n as int) =~= m);
    let mut j: usize = n;
    while j > 0 && str_le(key.as_str(), members[j - 1].0.as_str())
        invariant
            j <= n == members@.len(),
            m == json_members_v(members@),
            members@ == old(members)@,
            m.len() == n,
            member_index(m, key@) is None,
            insert_pos(m, key@) == insert_pos(m.take(j as int), key@),
        decreases j,
    {
        proof {
            lemma_json_members_index(members@, j - 1);
            assert(m.take(j as int).drop_last() =~= m.take(j - 1));
            assert(m.take(j as int).last() == m[j - 1]);
        }
        j = j - 1;
    }
    proof {
        lemma_insert_pos(m, key@);
        if j == 0 {
            assert(m.take(0) =~= Seq::<(Seq<char>, SpecJson)>::empty());
        } else {
            lemma_json_members_index(members@, j - 1);
            assert(m.take(j as int).last() == m[j - 1]);
        }
        assert(insert_pos(m, key@) == j);
        lemma_json_members_insert(members@, j as int, key, value);
    }
    members.insert(j, (key, value));
}

// ── Laws of object insertion ───────────────────────────────────────────────

/// Whether an object's keys are strictly increasing in code-point order.
pub open spec fn keys_sorted(m: Seq<(Seq<char>, SpecJson)>) -> bool {
    forall|i: int, j: int|
        0 <= i < j < m.len() ==> spec_str_le(#[trigger] m[i].0, #[trigger] m[j].0) && m[i].0
            != m[j].0
}

/// The value an object holds under a key.
pub open spec fn member_value(m: Seq<(Seq<char>, SpecJson)>, k: Seq<char>) -> Option<SpecJson> {
    match member_index(m, k) {
        Some(i) => Some(m[i].1),
        None => None,
    }
}

pub proof fn lemma_member_index(m: Seq<(Seq<char>, SpecJson)>, k: Seq<char>)
    ensures
        member_index(m, k) matches Some(i) ==> 0 <= i < m.len() && m[i].0 == k,
        member_index(m, k) is None ==> forall|j: int| 0 <= j < m.len() ==> (#[trigger] m[j]).0 != k,
    decreases m.len(),
{
    if m.len() > 0 && m.last().0 != k {
        lemma_member_index(m.drop_last(), k);
        assert forall|j: int| 0 <= j < m.len() - 1 implies m[j] == m.drop_last()[j] by {}
    }
}

proof fn lemma_member_index_unique(m: Seq<(Seq<char>, SpecJson)>, k: Seq<char>, p: int)
    requires
        0 <= p < m.len(),
        m[p].0 == k,
        forall|j: int| 0 <= j < m.len() && j != p ==> (#[trigger] m[j]).0 != k,
    ensures
        member_index(m, k) == Some(p),
    decreases m.len(),
{
    if p < m.len() - 1 {
        assert forall|j: int|
            0 <= j < m.drop_last().len() && j != p implies (#[trigger] m.drop_last()[j]).0 != k by {
            assert(m.drop_last()[j] == m[j]);
        }
        assert(m.drop_last()[p] == m[p]);
        lemma_member_index_unique(m.drop_last(), k, p);
    }
}

proof fn lemma_member_index_none(m: Seq<(Seq<char>, SpecJson)>, k: Seq<char>)
    requires
        forall|j: int| 0 <= j < m.len() ==> (#[trigger] m[j]).0 != k,
    ensures
        member_index(m, k) is None,
    decreases m.len(),
{
    if m.len() > 0 {
        assert forall|j: int| 0 <= j < m.drop_last().len() implies (#[trigger] m.drop_last()[j]).0
            != k by {
            assert(m.drop_last()[j] == m[j]);
        }
        lemma_member_index_none(m.drop_last(), k);
    }
}

proof fn lemma_insert_pos_splits(m: Seq<(Seq<char>, SpecJson)>, k: Seq<char>)
    requires
        keys_sorted(m),
        forall|j: int| 0 <= j < m.len() ==> (#[trigger] m[j]).0 != k,
    ensures
        0 <= insert_pos(m, k) <= m.len(),
        forall|i: int| 0 <= i < insert_pos(m, k) ==> spec_str_le((#[trigger] m[i]).0, k),
        forall|i: int| insert_pos(m, k) <= i < m.len() ==> spec_str_le(k, (#[trigger] m[i]).0),
    decreases m.len(),
{
    lemma_insert_pos(m, k);
    if m.len() > 0 {
        let l = m.len() - 1;
        if !spec_str_le(k, m.last().0) {
            lemma_str_le_total(k, m[l].0);
            assert forall|i: int| 0 <= i < m.len() implies spec_str_le((#[trigger] m[i]).0, k) by {
                if i < l {
                    lemma_str_le_trans(m[i].0, m[l].0, k);
                }
            }
        } else {
            let d = m.drop_last();
            assert forall|i: int, j: int| 0 <= i < j < d.len() implies spec_str_le(
                #[trigger] d[i].0,
                #[trigger] d[j].0,
            ) && d[i].0 != d[j].0 by {
                assert(d[i] == m[i] && d[j] == m[j]);
            }
            assert forall|j: int| 0 <= j < d.len() implies (#[trigger] d[j]).0 != k by {
                assert(d[j] == m[j]);
            }
            lemma_insert_pos_splits(d, k);
            assert forall|i: int| 0 <= i < insert_pos(m, k) implies spec_str_le(
                (#[trigger] m[i]).0,
                k,
            ) by {
                assert(d[i] == m[i]);
            }
            assert forall|i: int| insert_pos(m, k) <= i < m.len() implies spec_str_le(
                k,
                (#[trigger] m[i]).0,
            ) by {
                if i < l {
                    assert(d[i] == m[i]);
                }
            }
        }
    }
}

/// Inserting into an object keeps its keys sorted and distinct; afterwards the
/// object holds the new value under the key, and every other key keeps its value.
pub proof fn law_members_insert(m: Seq<(Seq<char>, SpecJson)>, k: Seq<char>, v: SpecJson)
    requires
        keys_sorted(m),
    ensures
        keys_sorted(members_insert(m, k, v)),
        member_value(members_insert(m, k, v), k) == Some(v),
        forall|k2: Seq<char>|
            k2 != k ==> #[trigger] member_value(members_insert(m, k, v), k2) == member_value(m, k2),
{
    let r = members_insert(m, k, v);
    lemma_member_index(m, k);
    match member_index(m, k) {
        Some(i) => {
            assert forall|j: int| 0 <= j < r.len() && j != i implies (#[trigger] r[j]).0 != k by {
                assert(r[j] == m[j]);
                if j < i {
                    assert(spec_str_le(m[j].0, m[i].0) && m[j].0 != m[i].0);
                } else {
                    assert(spec_str_le(m[i].0, m[j].0) && m[i].0 != m[j].0);
                }
            }
            lemma_member_index_unique(r, k, i);
            assert forall|k2: Seq<char>| k2 != k implies #[trigger] member_value(r, k2)
                == member_value(m, k2) by {
                lemma_member_index(m, k2);
                match member_index(m, k2) {
                    Some(j) => {
                        assert(j != i);
                        assert forall|q: int| 0 <= q < r.len() && q != j implies (#[trigger] r[q]).0
                            != k2 by {
                            if q != i {
                                assert(r[q] == m[q]);
                                if q < j {
                                    assert(spec_str_le(m[q].0, m[j].0) && m[q].0 != m[j].0);
                                } else {
                                    assert(spec_str_le(m[j].0, m[q].0) && m[j].0 != m[q].0);
                                }
                            }
                        }
                        assert(r[j] == m[j]);
                        lemma_member_index_unique(r, k2, j);
                    },
                    None => {
                        assert forall|q: int| 0 <= q < r.len() implies (#[trigger] r[q]).0 != k2 by {
                            if q != i {
                                assert(r[q] == m[q]);
                            }
                        }
                        lemma_member_index_none(r, k2);
                    },
                }
            }
        },
        None => {
            let p = insert_pos(m, k);
            lemma_insert_pos_splits(m, k);
            assert(r == m.insert(p, (k, v)));
            assert forall|i: int, j: int| 0 <= i < j < r.len() implies spec_str_le(
                #[trigger] r[i].0,
                #[trigger] r[j].0,
            ) && r[i].0 != r[j].0 by {
                if j < p {
                    assert(r[i] == m[i] && r[j] == m[j]);
                } else if j == p {
                    assert(r[i] == m[i]);
                } else if i < p {
                    assert(r[i] == m[i] && r[j] == m[j - 1]);
                    lemma_str_le_trans(m[i].0, k, m[j - 1].0);
                    if m[i].0 == m[j - 1].0 {
                        lemma_str_le_antisym(m[i].0, k);
                    }
                } else if i == p {
                    assert(r[j] == m[j - 1]);
                } else {
                    assert(r[i] == m[i - 1] && r[j] == m[j - 1]);
                }
            }
            assert forall|q: int| 0 <= q < r.len() && q != p implies (#[trigger] r[q]).0 != k by {
                if q < p {
                    assert(r[q] == m[q]);
                } else {
                    assert(r[q] == m[q - 1]);
                }
            }
            lemma_member_index_unique(r, k, p);
            assert forall|k2: Seq<char>| k2 != k implies #[trigger] member_value(r, k2)
                == member_value(m, k2) by {
                lemma_member_index(m, k2);
                match member_index(m, k2) {
                    Some(j) => {
                        let j2 = if j < p {
                            j
                        } else {
                            j + 1
                        };
                        assert(r[j2] == m[j]);
                        assert forall|q: int| 0 <= q < r.len() && q != j2 implies (#[trigger] r[q]).0
                            != k2 by {
                            if q != p {
                                let q0 = if q < p {
                                    q
                                } else {
                                    q - 1
                                };
                                assert(r[q] == m[q0]);
                                assert(q0 != j);
                                if q0 < j {
                                    assert(spec_str_le(m[q0].0, m[j].0) && m[q0].0 != m[j].0);
                                } else {
                                    assert(spec_str_le(m[j].0, m[q0].0) && m[j].0 != m[q0].0);
                                }
                            }
                        }
                        lemma_member_index_unique(r, k2, j2);
                    },
                    None => {
                        assert forall|q: int| 0 <= q < r.len() implies (#[trigger] r[q]).0 != k2 by {
                            if q < p {
                                assert(r[q] == m[q]);
                            } else if q > p {
                                assert(r[q] == m[q - 1]);
                            }
                        }
                        lemma_member_index_none(r, k2);
                    },
                }
            }
        },
    }
}

} // verus!
