//! A JSON value model with a mathematical view.

use vstd::prelude::*;

verus! {

/// One member of a JSON object: a key and its value.
pub struct Member {
    pub key: String,
    pub value: Json,
}

/// A JSON value. Numbers are kept as their literal text, so a value is carried
/// through unchanged whatever its precision.
pub enum Json {
    Null,
    Bool(bool),
    Number(String),
    Str(String),
    Array(Vec<Json>),
    Object(Vec<Member>),
}

/// The mathematical value of a [`Json`].
pub enum JsonV {
    Null,
    Bool(bool),
    Number(Seq<char>),
    Str(Seq<char>),
    Array(Seq<JsonV>),
    Object(Seq<(Seq<char>, JsonV)>),
}

pub open spec fn items_view(items: Seq<Json>) -> Seq<JsonV>
    decreases items,
{
    if items.len() == 0 {
        Seq::empty()
    } else {
        items_view(items.drop_last()).push(json_view(items.last()))
    }
}

pub open spec fn members_view(ms: Seq<Member>) -> Seq<(Seq<char>, JsonV)>
    decreases ms,
{
    if ms.len() == 0 {
        Seq::empty()
    } else {
        members_view(ms.drop_last()).push((ms.last().key@, json_view(ms.last().value)))
    }
}

pub open spec fn json_view(j: Json) -> JsonV
    decreases j,
{
    match j {
        Json::Null => JsonV::Null,
        Json::Bool(b) => JsonV::Bool(b),
        Json::Number(n) => JsonV::Number(n@),
        Json::Str(s) => JsonV::Str(s@),
        Json::Array(v) => JsonV::Array(items_view(v@)),
        Json::Object(ms) => JsonV::Object(members_view(ms@)),
    }
}


impl Json {
    pub open spec fn view(self) -> JsonV {
        json_view(self)
    }
}

pub proof fn lemma_items_view(items: Seq<Json>)
    ensures
        items_view(items).len() == items.len(),
        forall|i: int| 0 <= i < items.len() ==> #[trigger] items_view(items)[i] == json_view(items[i]),
    decreases items.len(),
{
    if items.len() > 0 {
        lemma_items_view(items.drop_last());
    }
}

pub proof fn lemma_members_view(ms: Seq<Member>)
    ensures
        members_view(ms).len() == ms.len(),
        forall|i: int|
            0 <= i < ms.len() ==> #[trigger] members_view(ms)[i] == (ms[i].key@, json_view(ms[i].value)),
    decreases ms.len(),
{
    if ms.len() > 0 {
        lemma_members_view(ms.drop_last());
    }
}

/// `i` is the position of the first member whose key is `k`.
pub open spec fn first_key_at(ms: Seq<(Seq<char>, JsonV)>, k: Seq<char>, i: int) -> bool {
    &&& 0 <= i < ms.len()
    &&& ms[i].0 == k
    &&& forall|j: int| 0 <= j < i ==> ms[j].0 != k
}

/// The position of the first member whose key is `k`, if there is one.
pub open spec fn find_key(ms: Seq<(Seq<char>, JsonV)>, k: Seq<char>) -> Option<int> {
    if exists|i: int| first_key_at(ms, k, i) {
        Some(choose|i: int| first_key_at(ms, k, i))
    } else {
        None
    }
}

pub proof fn lemma_first_key_unique(ms: Seq<(Seq<char>, JsonV)>, k: Seq<char>, i: int)
    requires
        first_key_at(ms, k, i),
    ensures
        find_key(ms, k) == Some(i),
{
    let c = choose|j: int| first_key_at(ms, k, j);
    assert(first_key_at(ms, k, c));
    if c < i {
        assert(ms[c].0 != k);
    } else if c > i {
        assert(ms[i].0 != k);
    }
}

/// A key that occurs has a first occurrence.
pub proof fn lemma_key_has_first(ms: Seq<(Seq<char>, JsonV)>, k: Seq<char>, t: int)
    requires
        0 <= t < ms.len(),
        ms[t].0 == k,
    ensures
        find_key(ms, k) is Some,
    decreases t,
{
    if exists|u: int| 0 <= u < t && ms[u].0 == k {
        let u = choose|u: int| 0 <= u < t && ms[u].0 == k;
        lemma_key_has_first(ms, k, u);
    } else {
        assert(first_key_at(ms, k, t));
    }
}

pub proof fn lemma_no_key(ms: Seq<(Seq<char>, JsonV)>, k: Seq<char>)
    requires
        forall|j: int| 0 <= j < ms.len() ==> ms[j].0 != k,
    ensures
        find_key(ms, k) is None,
{
}

/// The value of member `k` of an object; `None` for a missing key or a value
/// that is not an object.
pub open spec fn member(j: JsonV, k: Seq<char>) -> Option<JsonV> {
    match j {
        JsonV::Object(ms) => match find_key(ms, k) {
            Some(i) => Some(ms[i].1),
            None => None,
        },
        _ => None,
    }
}

/// The members with `k` set to `v`: the first member named `k` takes the new
/// value in its place, or a member is appended when there is none.
pub open spec fn set_key(ms: Seq<(Seq<char>, JsonV)>, k: Seq<char>, v: JsonV) -> Seq<(Seq<char>, JsonV)> {
    match find_key(ms, k) {
        Some(i) => ms.update(i, (k, v)),
        None => ms.push((k, v)),
    }
}

/// An object with member `k` set to `v`; any other value is left as it is.
pub open spec fn with_member(j: JsonV, k: Seq<char>, v: JsonV) -> JsonV {
    match j {
        JsonV::Object(ms) => JsonV::Object(set_key(ms, k, v)),
        _ => j,
    }
}

/// After setting member `k` of an object, `k` holds the new value.
pub proof fn lemma_member_set_same_key(j: JsonV, k: Seq<char>, v: JsonV)
    requires
        j is Object,
    ensures
        member(with_member(j, k, v), k) == Some(v),
{
    let ms = j->Object_0;
    let ns = set_key(ms, k, v);
    match find_key(ms, k) {
        Some(i) => {
            assert(first_key_at(ms, k, i));
            assert(first_key_at(ns, k, i));
            lemma_first_key_unique(ns, k, i);
        },
        None => {
            assert forall|t: int| 0 <= t < ms.len() implies ms[t].0 != k by {
                if ms[t].0 == k {
                    lemma_key_has_first(ms, k, t);
                }
            }
            assert(first_key_at(ns, k, ms.len() as int));
            lemma_first_key_unique(ns, k, ms.len() as int);
        },
    }
}

/// Setting member `k` leaves every other member as it was.
pub proof fn lemma_member_set_other_key(j: JsonV, k: Seq<char>, v: JsonV, k2: Seq<char>)
    requires
        k != k2,
    ensures
        member(with_member(j, k, v), k2) == member(j, k2),
{
    if let JsonV::Object(ms) = j {
        let ns = set_key(ms, k, v);
        assert forall|t: int| 0 <= t < ms.len() implies (ns[t].0 == k2) == (ms[t].0 == k2) by {}
        match find_key(ms, k2) {
            Some(i) => {
                assert(first_key_at(ms, k2, i));
                assert(first_key_at(ns, k2, i));
                lemma_first_key_unique(ns, k2, i);
            },
            None => {
                assert forall|t: int| 0 <= t < ns.len() implies ns[t].0 != k2 by {
                    if t < ms.len() && ms[t].0 == k2 {
                        lemma_key_has_first(ms, k2, t);
                    }
                }
                lemma_no_key(ns, k2);
            },
        }
    }
}

/// Setting a member to the value it already holds changes nothing.
pub proof fn lemma_member_set_unchanged(j: JsonV, k: Seq<char>, v: JsonV)
    requires
        member(j, k) == Some(v),
    ensures
        with_member(j, k, v) == j,
{
    let ms = j->Object_0;
    let i = find_key(ms, k)->Some_0;
    assert(first_key_at(ms, k, i));
    assert(ms.update(i, (k, v)) =~= ms);
}

/// The string held by a value, if it is a string.
pub open spec fn as_str(j: JsonV) -> Option<Seq<char>> {
    match j {
        JsonV::Str(s) => Some(s),
        _ => None,
    }
}

/// Whether two strings hold the same characters.
pub fn str_eq(a: &str, b: &str) -> (r: bool)
    ensures
        r == (a@ == b@),
{
    let n = a.unicode_len();
    if n != b.unicode_len() {
        return false;
    }
    let mut i: usize = 0;
    while i < n
        invariant
            n == a@.len(),
            n == b@.len(),
            0 <= i <= n,
            forall|j: int| 0 <= j < i ==> a@[j] == b@[j],
        decreases n - i,
    {
        if a.get_char(i) != b.get_char(i) {
            return false;
        }
        i = i + 1;
    }
    assert(a@ =~= b@);
    true
}

/// The position of the first member named `key`.
pub fn find_member(ms: &Vec<Member>, key: &str) -> (r: Option<usize>)
    ensures
        match r {
            Some(i) => find_key(members_view(ms@), key@) == Some(i as int),
            None => find_key(members_view(ms@), key@) is None,
        },
{
    proof {
        lemma_members_view(ms@);
    }
    let mut i: usize = 0;
    while i < ms.len()
        invariant
            0 <= i <= ms.len(),
            members_view(ms@).len() == ms.len(),
            forall|j: int| 0 <= j < i ==> members_view(ms@)[j].0 != key@,
            forall|j: int|
                0 <= j < ms.len() ==> #[trigger] members_view(ms@)[j] == (ms@[j].key@, json_view(ms@[j].value)),
        decreases ms.len() - i,
    {
        if str_eq(ms[i].key.as_str(), key) {
            proof {
                lemma_first_key_unique(members_view(ms@), key@, i as int);
            }
            return Some(i);
        }
        i = i + 1;
    }
    proof {
        lemma_no_key(members_view(ms@), key@);
    }
    None
}

/// Sets member `key` to `value`, in place of the first member with that key or
/// appended after the others.
pub fn set_member(ms: &mut Vec<Member>, key: &str, value: Json)
    ensures
        members_view(final(ms)@) == set_key(members_view(old(ms)@), key@, value@),
{
    proof {
        lemma_members_view(old(ms)@);
    }
    let pos = find_member(ms, key);
    match pos {
        Some(i) => {
            let _ = ms.remove(i);
            ms.insert(i, Member { key: key.to_string(), value });
        },
        None => {
            ms.push(Member { key: key.to_string(), value });
        },
    }
    proof {
        lemma_members_view(final(ms)@);
        assert(members_view(final(ms)@) =~= set_key(members_view(old(ms)@), key@, value@));
    }
}

/// Removes the first member named `key` and hands back its value.
pub fn take_member(ms: &mut Vec<Member>, key: &str) -> (r: Option<Json>)
    ensures
        match find_key(members_view(old(ms)@), key@) {
            Some(i) => {
                &&& r matches Some(v) && v@ == members_view(old(ms)@)[i].1
                &&& members_view(final(ms)@) == members_view(old(ms)@).remove(i)
            },
            None => r is None && final(ms)@ == old(ms)@,
        },
{
    proof {
        lemma_members_view(old(ms)@);
    }
    match find_member(ms, key) {
        Some(i) => {
            let m = ms.remove(i);
            proof {
                lemma_members_view(final(ms)@);
                assert(members_view(final(ms)@) =~= members_view(old(ms)@).remove(i as int));
            }
            Some(m.value)
        },
        None => None,
    }
}

impl Json {
    /// The value of member `key`, when this is an object that has one.
    pub fn get(&self, key: &str) -> (r: Option<&Json>)
        ensures
            match r {
                Some(v) => member(self@, key@) == Some(v@),
                None => member(self@, key@) is None,
            },
    {
        match self {
            Json::Object(ms) => {
                proof {
                    lemma_members_view(ms@);
                }
                match find_member(ms, key) {
                    Some(i) => Some(&ms[i].value),
                    None => None,
                }
            },
            _ => None,
        }
    }

    /// The element at `i`, when this is an array long enough.
    pub fn index(&self, i: usize) -> (r: Option<&Json>)
        ensures
            match r {
                Some(v) => self@ matches JsonV::Array(a) && i < a.len() && a[i as int] == v@,
                None => !(self@ matches JsonV::Array(a) && i < a.len()),
            },
    {
        match self {
            Json::Array(v) => {
                proof {
                    lemma_items_view(v@);
                }
                if i < v.len() {
                    Some(&v[i])
                } else {
                    None
                }
            },
            _ => None,
        }
    }

    /// The string held, when this is a string.
    pub fn as_str(&self) -> (r: Option<&str>)
        ensures
            match r {
                Some(s) => as_str(self@) == Some(s@),
                None => as_str(self@) is None,
            },
    {
        match self {
            Json::Str(s) => Some(s.as_str()),
            _ => None,
        }
    }

    /// The flag held, when this is a boolean.
    pub fn as_bool(&self) -> (r: Option<bool>)
        ensures
            match r {
                Some(b) => self@ == JsonV::Bool(b),
                None => !(self@ is Bool),
            },
    {
        match self {
            Json::Bool(b) => Some(*b),
            _ => None,
        }
    }

    /// The number of elements, when this is an array.
    pub fn array_len(&self) -> (r: Option<usize>)
        ensures
            match r {
                Some(n) => self@ matches JsonV::Array(a) && a.len() == n,
                None => !(self@ is Array),
            },
    {
        match self {
            Json::Array(v) => {
                proof {
                    lemma_items_view(v@);
                }
                Some(v.len())
            },
            _ => None,
        }
    }

    /// Whether this is an object.
    pub fn is_object(&self) -> (r: bool)
        ensures
            r == (self@ is Object),
    {
        match self {
            Json::Object(_) => true,
            _ => false,
        }
    }

    /// This value with member `key` set to `value`; a value that is not an
    /// object comes back as it was.
    pub fn with_member(self, key: &str, value: Json) -> (r: Json)
        ensures
            r@ == with_member(self@, key@, value@),
    {
        match self {
            Json::Object(ms) => {
                let mut ms = ms;
                set_member(&mut ms, key, value);
                Json::Object(ms)
            },
            other => other,
        }
    }
}

} // verus!
