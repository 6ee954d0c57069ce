//! Merging a freshly compiled profile into the persisted multi-profile document.

use vstd::prelude::*;

use crate::json::{
    find_key, first_key_at, lemma_first_key_unique, lemma_items_view, lemma_key_has_first,
    lemma_members_view, lemma_no_key, member, members_view, with_member, find_member,
    take_member, Json, JsonV, Member, items_view, str_eq, lemma_member_set_same_key,
    lemma_member_set_other_key, lemma_member_set_unchanged,
};

verus! {

/// The profiles array of a document, or no profiles when it has none.
pub open spec fn profiles_in(doc: JsonV) -> Seq<JsonV> {
    match member(doc, "profiles"@) {
        Some(JsonV::Array(a)) => a,
        _ => Seq::empty(),
    }
}

/// A compiled fragment: an object with a non-empty `profiles` array whose first
/// profile is an object.
pub open spec fn is_fragment(f: JsonV) -> bool {
    &&& f is Object
    &&& member(f, "profiles"@) matches Some(JsonV::Array(a))
    &&& a.len() > 0
    &&& a[0] is Object
}

/// The profile that a fragment brings in: the first of its profiles.
pub open spec fn incoming_profile(f: JsonV) -> JsonV {
    profiles_in(f)[0]
}

/// The name under which a profile is merged; `pkl` when it has no string name.
pub open spec fn profile_key(p: JsonV) -> Seq<char> {
    match member(p, "name"@) {
        Some(JsonV::Str(s)) => s,
        _ => "pkl"@,
    }
}

/// Whether profile `p` carries the string name `n`.
pub open spec fn is_named(p: JsonV, n: Seq<char>) -> bool {
    member(p, "name"@) == Some(JsonV::Str(n))
}

/// `i` is the position of the first profile named `n`.
pub open spec fn first_named_at(ps: Seq<JsonV>, n: Seq<char>, i: int) -> bool {
    &&& 0 <= i < ps.len()
    &&& is_named(ps[i], n)
    &&& forall|j: int| 0 <= j < i ==> !is_named(ps[j], n)
}

/// The position of the first profile named `n`, if any.
pub open spec fn find_profile(ps: Seq<JsonV>, n: Seq<char>) -> Option<int> {
    if exists|i: int| first_named_at(ps, n, i) {
        Some(choose|i: int| first_named_at(ps, n, i))
    } else {
        None
    }
}

/// The incoming profile `p` taking over the `selected` flag of the profile `prior`
/// that it replaces, when `prior` has a boolean one.
pub open spec fn carry_selected(prior: JsonV, p: JsonV) -> JsonV {
    match member(prior, "selected"@) {
        Some(JsonV::Bool(b)) => with_member(p, "selected"@, JsonV::Bool(b)),
        _ => p,
    }
}

/// A new profile, marked not selected unless it says otherwise itself.
pub open spec fn unselected_by_default(p: JsonV) -> JsonV {
    if member(p, "selected"@) is Some {
        p
    } else {
        with_member(p, "selected"@, JsonV::Bool(false))
    }
}

/// The profiles after merging `p`: it replaces the first profile with its name in
/// that profile's position, or is appended after all others.
pub open spec fn merged_profiles(ps: Seq<JsonV>, p: JsonV) -> Seq<JsonV> {
    match find_profile(ps, profile_key(p)) {
        Some(i) => ps.update(i, carry_selected(ps[i], p)),
        None => ps.push(unselected_by_default(p)),
    }
}

/// The existing document as an object; anything else counts as an empty one.
pub open spec fn existing_base(e: JsonV) -> JsonV {
    match e {
        JsonV::Object(_) => e,
        _ => JsonV::Object(Seq::empty()),
    }
}

/// The title given to a document that has none.
pub open spec fn default_title() -> JsonV {
    JsonV::Str("Karabiner-Pkl Configuration"@)
}

/// The title a fragment offers: its own, or the default one.
pub open spec fn fragment_title(f: JsonV) -> JsonV {
    match member(f, "title"@) {
        Some(t) => t,
        None => default_title(),
    }
}

/// The document that results from merging fragment `f` into existing document `e`.
pub open spec fn merged(e: JsonV, f: JsonV) -> JsonV {
    let base = existing_base(e);
    let doc = with_member(
        base,
        "profiles"@,
        JsonV::Array(merged_profiles(profiles_in(base), incoming_profile(f))),
    );
    if member(base, "title"@) is Some {
        doc
    } else {
        with_member(doc, "title"@, fragment_title(f))
    }
}

proof fn lemma_first_named_unique(ps: Seq<JsonV>, n: Seq<char>, i: int)
    requires
        first_named_at(ps, n, i),
    ensures
        find_profile(ps, n) == Some(i),
{
    let c = choose|j: int| first_named_at(ps, n, j);
    assert(first_named_at(ps, n, c));
    if c < i {
        assert(!is_named(ps[c], n));
    } else if c > i {
        assert(!is_named(ps[i], n));
    }
}

/// Removing a member whose key is not `k` leaves the value of `k` as it was.
proof fn lemma_remove_other_key(ms: Seq<(Seq<char>, JsonV)>, i: int, k: Seq<char>)
    requires
        0 <= i < ms.len(),
        ms[i].0 != k,
    ensures
        member(JsonV::Object(ms.remove(i)), k) == member(JsonV::Object(ms), k),
{
    let rs = ms.remove(i);
    match find_key(ms, k) {
        Some(j) => {
            assert(first_key_at(ms, k, j));
            let jj = if j < i { j } else { j - 1 };
            assert(first_key_at(rs, k, jj)) by {
                assert forall|t: int| 0 <= t < jj implies rs[t].0 != k by {
                    if t < i {
                        assert(rs[t] == ms[t]);
                    } else {
                        assert(rs[t] == ms[t + 1]);
                    }
                }
            }
            lemma_first_key_unique(rs, k, jj);
        },
        None => {
            assert forall|t: int| 0 <= t < rs.len() implies rs[t].0 != k by {
                let o = if t < i { t } else { t + 1 };
                assert(rs[t] == ms[o]);
                if ms[o].0 == k {
                    lemma_key_has_first(ms, k, o);
                }
            }
            lemma_no_key(rs, k);
        },
    }
}


proof fn lemma_named_has_first(ps: Seq<JsonV>, n: Seq<char>, t: int)
    requires
        0 <= t < ps.len(),
        is_named(ps[t], n),
    ensures
        find_profile(ps, n) is Some,
    decreases t,
{
    if exists|u: int| 0 <= u < t && is_named(ps[u], n) {
        let u = choose|u: int| 0 <= u < t && is_named(ps[u], n);
        lemma_named_has_first(ps, n, u);
    } else {
        assert(first_named_at(ps, n, t));
    }
}

proof fn lemma_strlit_keys()
    ensures
        "title"@ != "profiles"@,
        "selected"@ != "name"@,
        "selected"@ != "profiles"@,
        "selected"@ != "title"@,
{
    reveal_strlit("title");
    reveal_strlit("profiles");
    reveal_strlit("selected");
    reveal_strlit("name");
    assert("title"@.len() != "profiles"@.len());
    assert("selected"@.len() != "name"@.len());
    assert("selected"@[0] != "profiles"@[0]);
    assert("selected"@.len() != "title"@.len());
}

/// Only the `selected` flag of the incoming profile is ever touched: its name stays.
proof fn lemma_name_kept(prior: JsonV, p: JsonV)
    ensures
        member(carry_selected(prior, p), "name"@) == member(p, "name"@),
        member(unselected_by_default(p), "name"@) == member(p, "name"@),
{
    lemma_strlit_keys();
    lemma_member_set_other_key(p, "selected"@, JsonV::Bool(false), "name"@);
    if let Some(JsonV::Bool(b)) = member(prior, "selected"@) {
        lemma_member_set_other_key(p, "selected"@, JsonV::Bool(b), "name"@);
    }
}

proof fn lemma_existing_member(e: JsonV, k: Seq<char>)
    ensures
        member(existing_base(e), k) == member(e, k),
{
    if !(e is Object) {
        lemma_no_key(Seq::empty(), k);
    }
}

/// How the merged document is made up: its profiles, its title, and every other
/// member of the existing document.
proof fn lemma_merged_parts(e: JsonV, f: JsonV)
    requires
        is_fragment(f),
    ensures
        merged(e, f) is Object,
        member(merged(e, f), "profiles"@) == Some(
            JsonV::Array(merged_profiles(profiles_in(e), incoming_profile(f))),
        ),
        profiles_in(merged(e, f)) == merged_profiles(profiles_in(e), incoming_profile(f)),
        member(e, "title"@) is Some ==> member(merged(e, f), "title"@) == member(e, "title"@),
        member(e, "title"@) is None ==> member(merged(e, f), "title"@) == Some(fragment_title(f)),
{
    lemma_strlit_keys();
    let base = existing_base(e);
    lemma_existing_member(e, "profiles"@);
    lemma_existing_member(e, "title"@);
    let a = JsonV::Array(merged_profiles(profiles_in(e), incoming_profile(f)));
    let doc = with_member(base, "profiles"@, a);
    lemma_member_set_same_key(base, "profiles"@, a);
    lemma_member_set_other_key(base, "profiles"@, a, "title"@);
    if member(base, "title"@) is None {
        lemma_member_set_other_key(doc, "title"@, fragment_title(f), "profiles"@);
        lemma_member_set_same_key(doc, "title"@, fragment_title(f));
    }
}

/// Merging never changes a member of the document other than `profiles` and `title`.
proof fn lemma_merged_other_member(e: JsonV, f: JsonV, k: Seq<char>)
    requires
        k != "profiles"@,
        k != "title"@,
    ensures
        member(merged(e, f), k) == member(e, k),
{
    let base = existing_base(e);
    lemma_existing_member(e, k);
    let a = JsonV::Array(merged_profiles(profiles_in(base), incoming_profile(f)));
    let doc = with_member(base, "profiles"@, a);
    lemma_member_set_other_key(base, "profiles"@, a, k);
    lemma_member_set_other_key(doc, "title"@, fragment_title(f), k);
}

/// A profile whose name no existing profile carries is appended: the document
/// gains exactly one profile, placed last, and it is not selected unless the
/// fragment sets the flag itself.
pub proof fn law_merge_new_profile(e: JsonV, f: JsonV)
    requires
        is_fragment(f),
        forall|i: int|
            0 <= i < profiles_in(e).len() ==> !is_named(
                #[trigger] profiles_in(e)[i],
                profile_key(incoming_profile(f)),
            ),
    ensures
        profiles_in(merged(e, f)).len() == profiles_in(e).len() + 1,
        profiles_in(merged(e, f)).take(profiles_in(e).len() as int) == profiles_in(e),
        member(incoming_profile(f), "selected"@) is None ==> member(
            profiles_in(merged(e, f)).last(),
            "selected"@,
        ) == Some(JsonV::Bool(false)),
        member(incoming_profile(f), "selected"@) is Some ==> profiles_in(merged(e, f)).last()
            == incoming_profile(f),
{
    lemma_merged_parts(e, f);
    let ps = profiles_in(e);
    let p = incoming_profile(f);
    assert(find_profile(ps, profile_key(p)) is None);
    lemma_member_set_same_key(p, "selected"@, JsonV::Bool(false));
    assert(ps.push(unselected_by_default(p)).take(ps.len() as int) =~= ps);
}

/// Replacing a profile that is selected keeps it selected, in the same position,
/// whatever the fragment says of its own `selected` flag.
pub proof fn law_merge_keeps_selection(e: JsonV, f: JsonV, i: int)
    requires
        is_fragment(f),
        first_named_at(profiles_in(e), profile_key(incoming_profile(f)), i),
        member(profiles_in(e)[i], "selected"@) == Some(JsonV::Bool(true)),
    ensures
        profiles_in(merged(e, f)).len() == profiles_in(e).len(),
        member(profiles_in(merged(e, f))[i], "selected"@) == Some(JsonV::Bool(true)),
{
    lemma_merged_parts(e, f);
    lemma_first_named_unique(profiles_in(e), profile_key(incoming_profile(f)), i);
    lemma_member_set_same_key(incoming_profile(f), "selected"@, JsonV::Bool(true));
}

/// Replacing profile `i` leaves every other profile exactly as it was, and
/// every member of the document other than `profiles` and `title`; an existing
/// title is kept.
pub proof fn law_merge_leaves_others(e: JsonV, f: JsonV, i: int, k: Seq<char>)
    requires
        is_fragment(f),
        first_named_at(profiles_in(e), profile_key(incoming_profile(f)), i),
    ensures
        profiles_in(merged(e, f)).len() == profiles_in(e).len(),
        forall|j: int|
            0 <= j < profiles_in(e).len() && j != i ==> #[trigger] profiles_in(merged(e, f))[j]
                == profiles_in(e)[j],
        k != "profiles"@ && k != "title"@ ==> member(merged(e, f), k) == member(e, k),
        member(e, "title"@) is Some ==> member(merged(e, f), "title"@) == member(e, "title"@),
{
    lemma_merged_parts(e, f);
    lemma_first_named_unique(profiles_in(e), profile_key(incoming_profile(f)), i);
    if k != "profiles"@ && k != "title"@ {
        lemma_merged_other_member(e, f, k);
    }
}

/// The incoming profile as the first merge leaves it is a fixed point of carrying
/// the flag over again.
proof fn lemma_carry_again(prior: JsonV, p: JsonV)
    requires
        p is Object,
    ensures
        carry_selected(carry_selected(prior, p), p) == carry_selected(prior, p),
        carry_selected(unselected_by_default(p), p) == unselected_by_default(p),
{
    if let Some(JsonV::Bool(b)) = member(prior, "selected"@) {
        lemma_member_set_same_key(p, "selected"@, JsonV::Bool(b));
    } else {
        if let Some(JsonV::Bool(b)) = member(p, "selected"@) {
            lemma_member_set_unchanged(p, "selected"@, JsonV::Bool(b));
        }
    }
    if member(p, "selected"@) is None {
        lemma_member_set_same_key(p, "selected"@, JsonV::Bool(false));
    } else if let Some(JsonV::Bool(b)) = member(p, "selected"@) {
        lemma_member_set_unchanged(p, "selected"@, JsonV::Bool(b));
    }
}

/// Merging the same fragment a second time changes nothing, provided its profile
/// carries a string name.
pub proof fn law_merge_idempotent(e: JsonV, f: JsonV)
    requires
        is_fragment(f),
        member(incoming_profile(f), "name"@) matches Some(JsonV::Str(_)),
    ensures
        merged(merged(e, f), f) == merged(e, f),
{
    let m1 = merged(e, f);
    let ps = profiles_in(e);
    let p = incoming_profile(f);
    let key = profile_key(p);
    assert(is_named(p, key));
    assert(p is Object);
    lemma_merged_parts(e, f);
    lemma_merged_parts(m1, f);
    lemma_name_kept(p, p);
    lemma_carry_again(p, p);
    let mp = profiles_in(m1);
    match find_profile(ps, key) {
        Some(i) => {
            assert(first_named_at(ps, key, i));
            lemma_name_kept(ps[i], p);
            lemma_carry_again(ps[i], p);
            assert(first_named_at(mp, key, i));
            lemma_first_named_unique(mp, key, i);
            assert(merged_profiles(mp, p) =~= mp);
        },
        None => {
            assert forall|t: int| 0 <= t < ps.len() implies !is_named(ps[t], key) by {
                if is_named(ps[t], key) {
                    lemma_named_has_first(ps, key, t);
                }
            }
            assert(first_named_at(mp, key, ps.len() as int));
            lemma_first_named_unique(mp, key, ps.len() as int);
            assert(merged_profiles(mp, p) =~= mp);
        },
    }
    lemma_member_set_unchanged(m1, "profiles"@, JsonV::Array(mp));
}

/// Whether a compiled configuration can be merged: an object whose `profiles`
/// array is non-empty and starts with a profile object.
pub fn is_profile_fragment(f: &Json) -> (r: bool)
    ensures
        r == is_fragment(f@),
{
    if !f.is_object() {
        return false;
    }
    match f.get("profiles") {
        Some(ps) => match ps.index(0) {
            Some(p) => p.is_object(),
            None => false,
        },
        None => false,
    }
}

/// The position of the first profile named `name`.
pub fn find_profile_index(ps: &Vec<Json>, name: &str) -> (r: Option<usize>)
    ensures
        match r {
            Some(i) => find_profile(items_view(ps@), name@) == Some(i as int),
            None => find_profile(items_view(ps@), name@) is None,
        },
{
    proof {
        lemma_items_view(ps@);
    }
    let ghost pv = items_view(ps@);
    let mut i: usize = 0;
    while i < ps.len()
        invariant
            0 <= i <= ps.len(),
            pv == items_view(ps@),
            pv.len() == ps.len(),
            forall|j: int| 0 <= j < ps.len() ==> #[trigger] pv[j] == ps@[j]@,
            forall|j: int| 0 <= j < i ==> !is_named(pv[j], name@),
        decreases ps.len() - i,
    {
        let named = match ps[i].get("name") {
            Some(n) => match n.as_str() {
                Some(s) => str_eq(s, name),
                None => false,
            },
            None => false,
        };
        if named {
            proof {
                lemma_first_named_unique(pv, name@, i as int);
            }
            return Some(i);
        }
        i = i + 1;
    }
    proof {
        assert forall|j: int| 0 <= j < pv.len() implies !first_named_at(pv, name@, j) by {}
    }
    None
}

/// Merges the first profile of a compiled fragment into an existing document.
///
/// The profile replaces the first profile with the same name, in that position
/// and keeping its boolean `selected` flag, or is appended, marked not selected
/// unless it carries its own flag. Every other profile and member is carried
/// through unchanged. A document without a `title` takes the fragment's title or
/// a default one; an existing title is kept.
pub fn merge_configurations(existing: Json, new_config: Json) -> (r: Json)
    requires
        is_fragment(new_config@),
    ensures
        r@ == merged(existing@, new_config@),
{
    proof {
        reveal_strlit("title");
        reveal_strlit("profiles");
        reveal_strlit("selected");
        reveal_strlit("name");
        reveal_strlit("pkl");
        assert("title"@.len() == 5);
        assert("profiles"@.len() == 8);
        assert("title"@ != "profiles"@);
    }
    let ghost f = new_config@;
    let ghost e = existing@;
    let mut fms = match new_config {
        Json::Object(ms) => ms,
        _ => Vec::new(),
    };
    assert(f == JsonV::Object(members_view(fms@)));
    let ghost fv0 = members_view(fms@);
    let title_value = take_member(&mut fms, "title");
    assert(title_value matches Some(t) ==> member(f, "title"@) == Some(t@));
    assert(title_value is None ==> member(f, "title"@) is None);
    proof {
        if let Some(i) = find_key(fv0, "title"@) {
            lemma_remove_other_key(fv0, i, "profiles"@);
        }
    }
    let profiles_value = take_member(&mut fms, "profiles");
    let mut incoming_list = match profiles_value {
        Some(Json::Array(v)) => v,
        _ => Vec::new(),
    };
    proof {
        lemma_items_view(incoming_list@);
    }
    assert(items_view(incoming_list@) == profiles_in(f));
    let incoming = incoming_list.remove(0);
    assert(incoming@ == incoming_profile(f));

    let mut ems = match existing {
        Json::Object(ms) => ms,
        _ => Vec::new(),
    };
    let ghost base = existing_base(e);
    proof {
        lemma_members_view(ems@);
        if !(e is Object) {
            assert(members_view(ems@) =~= Seq::<(Seq<char>, JsonV)>::empty());
        }
    }
    assert(base == JsonV::Object(members_view(ems@)));
    let ghost bv = members_view(ems@);
    let has_title = find_member(&ems, "title").is_some();
    let ppos = find_member(&ems, "profiles");
    let mut ps: Vec<Json> = match ppos {
        Some(i) => {
            let m = ems.remove(i);
            match m.value {
                Json::Array(v) => v,
                _ => Vec::new(),
            }
        },
        None => Vec::new(),
    };
    proof {
        lemma_items_view(ps@);
        if !(member(base, "profiles"@) matches Some(JsonV::Array(_))) {
            assert(items_view(ps@) =~= Seq::<JsonV>::empty());
        }
    }
    let ghost pv = items_view(ps@);
    assert(pv == profiles_in(base));

    let key: String = match incoming.get("name") {
        Some(n) => match n.as_str() {
            Some(s) => s.to_string(),
            None => "pkl".to_string(),
        },
        None => "pkl".to_string(),
    };
    assert(key@ == profile_key(incoming@));
    match find_profile_index(&ps, key.as_str()) {
        Some(i) => {
            let prior = ps.remove(i);
            assert(prior@ == pv[i as int]);
            let updated = match prior.get("selected") {
                Some(v) => match v.as_bool() {
                    Some(b) => incoming.with_member("selected", Json::Bool(b)),
                    None => incoming,
                },
                None => incoming,
            };
            assert(updated@ == carry_selected(pv[i as int], incoming_profile(f)));
            ps.insert(i, updated);
            proof {
                lemma_items_view(ps@);
                assert(items_view(ps@) =~= pv.update(i as int, updated@));
            }
        },
        None => {
            let p = if incoming.get("selected").is_some() {
                incoming
            } else {
                incoming.with_member("selected", Json::Bool(false))
            };
            ps.push(p);
            proof {
                lemma_items_view(ps@);
                assert(items_view(ps@) =~= pv.push(p@));
            }
        },
    }
    let ghost mp = merged_profiles(pv, incoming_profile(f));
    assert(items_view(ps@) == mp);
    let profiles_member = Member { key: "profiles".to_string(), value: Json::Array(ps) };
    assert(profiles_member.value@ == JsonV::Array(mp));
    match ppos {
        Some(i) => {
            ems.insert(i, profiles_member);
        },
        None => {
            ems.push(profiles_member);
        },
    }
    let ghost doc = with_member(base, "profiles"@, JsonV::Array(mp));
    let ghost dv = members_view(ems@);
    proof {
        lemma_members_view(ems@);
        match ppos {
            Some(i) => {
                assert(dv =~= bv.update(i as int, ("profiles"@, JsonV::Array(mp))));
            },
            None => {
                assert(dv =~= bv.push(("profiles"@, JsonV::Array(mp))));
            },
        }
    }
    assert(doc == JsonV::Object(dv));
    if !has_title {
        let t = match title_value {
            Some(t) => t,
            None => Json::Str("Karabiner-Pkl Configuration".to_string()),
        };
        assert(t@ == fragment_title(f));
        proof {
            assert forall|j: int| 0 <= j < dv.len() implies dv[j].0 != "title"@ by {
                if j < bv.len() && dv[j] == bv[j] && bv[j].0 == "title"@ {
                    lemma_key_has_first(bv, "title"@, j);
                }
            }
            lemma_no_key(dv, "title"@);
        }
        ems.push(Member { key: "title".to_string(), value: t });
        proof {
            lemma_members_view(ems@);
            assert(members_view(ems@) =~= dv.push(("title"@, t@)));
        }
    }
    Json::Object(ems)
}

/// The document to write after a compile: the fragment merged into the existing
/// document, or the fragment itself when there is none yet.
pub fn document_to_write(existing: Option<Json>, compiled: Json) -> (r: Json)
    requires
        is_fragment(compiled@),
    ensures
        match existing {
            Some(e) => r@ == merged(e@, compiled@),
            None => r@ == compiled@,
        },
{
    match existing {
        Some(e) => merge_configurations(e, compiled),
        None => compiled,
    }
}

} // verus!
