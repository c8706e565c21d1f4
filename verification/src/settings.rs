//! The settings document: merging one document into another, registering a
//! hook, and setting the keys that this tool owns.
//!
//! A merge never removes a key of the destination. Under the key `hooks`, event
//! lists are united instead of replaced, so merging twice adds nothing.

use vstd::prelude::*;
use crate::component::HookConfig;
use crate::json::Json;
use crate::json::JsonNumber;
use crate::json::JsonValue;
use crate::json::NumberValue;
use crate::json::parsed_json;
use crate::json::rendered_json;
use crate::platform::Platform;
use crate::platform::installed_command;
use crate::text::contains;
use crate::text::contains_text;
use crate::json::find_field;
use crate::json::has_key;
use crate::json::distinct_keys;
use crate::json::values_of;
use crate::json::lemma_object_view;
use crate::json::lemma_object_wf;
use crate::json::lemma_object_is;
use crate::json::lemma_array_wf;
use crate::json::lemma_array_values;

verus! {

/// `dest`, followed by each value of `source` that does not occur before it,
/// in the order of `source`.
pub open spec fn append_missing(dest: Seq<JsonValue>, source: Seq<JsonValue>) -> Seq<JsonValue>
    decreases source.len(),
{
    if source.len() == 0 {
        dest
    } else {
        let x = source[0];
        append_missing(
            if dest.contains(x) {
                dest
            } else {
                dest.push(x)
            },
            source.drop_first(),
        )
    }
}

/// The list of one event after a merge, where both documents have the event:
/// two lists are united; anything else leaves the destination as it is.
pub open spec fn merge_event(dest: JsonValue, source: JsonValue) -> JsonValue {
    match (dest, source) {
        (JsonValue::Array(d), JsonValue::Array(s)) => JsonValue::Array(append_missing(d, s)),
        _ => dest,
    }
}

/// The `hooks` section after a merge: an event that only one side has is kept
/// or taken over, an event of both is merged by [`merge_event`]. Unless both
/// sections are objects, the destination's stays.
pub open spec fn merge_hooks_value(dest: JsonValue, source: JsonValue) -> JsonValue {
    match (dest, source) {
        (JsonValue::Object(d), JsonValue::Object(s)) => JsonValue::Object(
            Map::new(
                |e: Seq<char>| d.dom().contains(e) || s.dom().contains(e),
                |e: Seq<char>|
                    if !s.dom().contains(e) {
                        d[e]
                    } else if !d.dom().contains(e) {
                        s[e]
                    } else {
                        merge_event(d[e], s[e])
                    },
            ),
        ),
        _ => dest,
    }
}

/// The document after merging `source` into `dest`: where both are objects,
/// a key of one side only is kept or taken over, the key `hooks` of both is
/// merged by [`merge_hooks_value`], and any other key of both is merged in
/// the same way, level by level. Otherwise the source's value replaces the
/// destination's.
pub open spec fn merge_values(dest: JsonValue, source: JsonValue) -> JsonValue
    decreases source,
{
    match (dest, source) {
        (JsonValue::Object(d), JsonValue::Object(s)) => JsonValue::Object(
            Map::new(
                |k: Seq<char>| d.dom().contains(k) || s.dom().contains(k),
                |k: Seq<char>|
                    if !s.dom().contains(k) {
                        d[k]
                    } else if !d.dom().contains(k) {
                        s[k]
                    } else if k == "hooks"@ {
                        merge_hooks_value(d[k], s[k])
                    } else {
                        merge_values(d[k], s[k])
                    },
            ),
        ),
        _ => source,
    }
}

/// Appending what is missing keeps the destination as a prefix and leaves
/// every value of both lists in the result.
pub proof fn lemma_append_missing_holds(dest: Seq<JsonValue>, source: Seq<JsonValue>)
    ensures
        dest.len() <= append_missing(dest, source).len(),
        append_missing(dest, source).subrange(0, dest.len() as int) == dest,
        forall|x: JsonValue| dest.contains(x) ==> append_missing(dest, source).contains(x),
        forall|i: int|
            0 <= i < source.len() ==> append_missing(dest, source).contains(#[trigger] source[i]),
    decreases source.len(),
{
    let r = append_missing(dest, source);
    if source.len() == 0 {
        assert(r.subrange(0, dest.len() as int) =~= dest);
    } else {
        let x = source[0];
        let d2 = if dest.contains(x) {
            dest
        } else {
            dest.push(x)
        };
        let rest = source.drop_first();
        lemma_append_missing_holds(d2, rest);
        assert(r.subrange(0, dest.len() as int) =~= dest) by {
            assert(r.subrange(0, d2.len() as int) == d2);
            assert forall|i: int| 0 <= i < dest.len() implies r[i] == dest[i] by {
                assert(r.subrange(0, d2.len() as int)[i] == d2[i]);
            }
        }
        assert forall|y: JsonValue| dest.contains(y) implies r.contains(y) by {
            let i = choose|i: int| 0 <= i < dest.len() && dest[i] == y;
            assert(d2[i] == y);
            assert(d2.contains(y));
        }
        assert forall|i: int| 0 <= i < source.len() implies r.contains(#[trigger] source[i]) by {
            if i == 0 {
                if !dest.contains(x) {
                    assert(d2[dest.len() as int] == x);
                }
                assert(d2.contains(x));
            } else {
                assert(source[i] == rest[i - 1]);
            }
        }
    }
}

/// Nothing is appended where the destination holds every value of the source.
pub proof fn lemma_append_missing_nothing(dest: Seq<JsonValue>, source: Seq<JsonValue>)
    requires
        forall|i: int| 0 <= i < source.len() ==> dest.contains(#[trigger] source[i]),
    ensures
        append_missing(dest, source) == dest,
    decreases source.len(),
{
    if source.len() > 0 {
        let rest = source.drop_first();
        assert(dest.contains(source[0]));
        assert forall|i: int| 0 <= i < rest.len() implies dest.contains(#[trigger] rest[i]) by {
            assert(rest[i] == source[i + 1]);
        }
        lemma_append_missing_nothing(dest, rest);
    }
}

/// Merging an event list a second time changes nothing.
pub proof fn lemma_merge_event_twice(dest: JsonValue, source: JsonValue)
    ensures
        merge_event(merge_event(dest, source), source) == merge_event(dest, source),
{
    match (dest, source) {
        (JsonValue::Array(d), JsonValue::Array(s)) => {
            lemma_append_missing_holds(d, s);
            lemma_append_missing_nothing(append_missing(d, s), s);
        },
        _ => {},
    }
}

/// Merging an event list into itself changes nothing.
pub proof fn lemma_merge_event_self(v: JsonValue)
    ensures
        merge_event(v, v) == v,
{
    match v {
        JsonValue::Array(d) => {
            assert forall|i: int| 0 <= i < d.len() implies d.contains(#[trigger] d[i]) by {}
            lemma_append_missing_nothing(d, d);
        },
        _ => {},
    }
}

/// Merging a `hooks` section into itself changes nothing.
pub proof fn lemma_merge_hooks_self(v: JsonValue)
    ensures
        merge_hooks_value(v, v) == v,
{
    match v {
        JsonValue::Object(m) => {
            assert forall|e: Seq<char>| m.dom().contains(e) implies merge_event(m[e], m[e])
                == m[e] by {
                lemma_merge_event_self(m[e]);
            }
            assert(merge_hooks_value(v, v)->Object_0 =~= m);
        },
        _ => {},
    }
}

/// Merging the same `hooks` section a second time changes nothing: no entry
/// is added twice.
pub proof fn lemma_merge_hooks_twice(dest: JsonValue, source: JsonValue)
    ensures
        merge_hooks_value(merge_hooks_value(dest, source), source) == merge_hooks_value(
            dest,
            source,
        ),
{
    match (dest, source) {
        (JsonValue::Object(d), JsonValue::Object(s)) => {
            let once = merge_hooks_value(dest, source);
            let twice = merge_hooks_value(once, source);
            let m = once->Object_0;
            assert forall|e: Seq<char>| m.dom().contains(e) implies twice->Object_0[e]
                == m[e] by {
                if s.dom().contains(e) {
                    if d.dom().contains(e) {
                        lemma_merge_event_twice(d[e], s[e]);
                    } else {
                        lemma_merge_event_self(s[e]);
                    }
                }
            }
            assert(twice->Object_0 =~= m);
        },
        _ => {},
    }
}

/// Merging a document into itself changes nothing.
pub proof fn lemma_merge_self(v: JsonValue)
    ensures
        merge_values(v, v) == v,
    decreases v,
{
    match v {
        JsonValue::Object(m) => {
            assert forall|k: Seq<char>| m.dom().contains(k) implies merge_values(v, v)->Object_0[k]
                == m[k] by {
                if k == "hooks"@ {
                    lemma_merge_hooks_self(m[k]);
                } else {
                    lemma_merge_self(m[k]);
                }
            }
            assert(merge_values(v, v)->Object_0 =~= m);
        },
        _ => {},
    }
}

/// Merge is idempotent: merging the same source into a destination twice
/// gives what merging it once gives.
pub proof fn lemma_merge_idempotent(dest: JsonValue, source: JsonValue)
    ensures
        merge_values(merge_values(dest, source), source) == merge_values(dest, source),
    decreases source,
{
    match (dest, source) {
        (JsonValue::Object(d), JsonValue::Object(s)) => {
            let once = merge_values(dest, source);
            let twice = merge_values(once, source);
            let m = once->Object_0;
            assert forall|k: Seq<char>| m.dom().contains(k) implies twice->Object_0[k]
                == m[k] by {
                if s.dom().contains(k) {
                    if d.dom().contains(k) {
                        if k == "hooks"@ {
                            lemma_merge_hooks_twice(d[k], s[k]);
                        } else {
                            lemma_merge_idempotent(d[k], s[k]);
                        }
                    } else {
                        if k == "hooks"@ {
                            lemma_merge_hooks_self(s[k]);
                        } else {
                            lemma_merge_self(s[k]);
                        }
                    }
                }
            }
            assert(twice->Object_0 =~= m);
        },
        (_, JsonValue::Object(s)) => {
            lemma_merge_self(source);
        },
        _ => {},
    }
}

/// A merge keeps every key of the destination that the source does not have,
/// with its value.
pub proof fn lemma_merge_keeps_other_keys(dest: JsonValue, source: JsonValue, k: Seq<char>)
    requires
        dest is Object,
        source is Object,
        dest->Object_0.dom().contains(k),
        !source->Object_0.dom().contains(k),
    ensures
        merge_values(dest, source)->Object_0.dom().contains(k),
        merge_values(dest, source)->Object_0[k] == dest->Object_0[k],
{
}


/// Whether some document of `items` has the value of `x`.
pub fn holds_value(items: &Vec<Json>, x: &Json) -> (r: bool)
    requires
        forall|i: int| 0 <= i < items@.len() ==> (#[trigger] items@[i]).wf(),
        x.wf(),
    ensures
        r == values_of(items@).contains(x@),
{
    let mut i: usize = 0;
    while i < items.len()
        invariant
            i <= items.len(),
            x.wf(),
            forall|j: int| 0 <= j < items@.len() ==> (#[trigger] items@[j]).wf(),
            forall|j: int| 0 <= j < i ==> (#[trigger] values_of(items@)[j]) != x@,
        decreases items.len() - i,
    {
        if items[i].equals(x) {
            assert(values_of(items@)[i as int] == x@);
            return true;
        }
        i += 1;
    }
    false
}

/// The target of a merge at one level: `hooks_level` tells the level of the
/// events of a `hooks` section from the levels of the document.
pub open spec fn merge_level_value(dest: JsonValue, source: JsonValue, hooks_level: bool)
    -> JsonValue {
    if hooks_level {
        merge_hooks_value(dest, source)
    } else {
        merge_values(dest, source)
    }
}

/// Unites two event lists: the destination's entries, then each entry of the
/// source whose value is not yet in the list.
fn merge_event_lists(dest: &Json, source: &Json) -> (r: Json)
    requires
        dest.wf(),
        source.wf(),
    ensures
        r.wf(),
        r@ == merge_event(dest@, source@),
{
    match (dest, source) {
        (Json::Array(d), Json::Array(s)) => {
            proof {
                lemma_array_wf(*d);
                lemma_array_wf(*s);
                lemma_array_values(*d);
                lemma_array_values(*s);
            }
            let mut out: Vec<Json> = Vec::new();
            let mut i: usize = 0;
            while i < d.len()
                invariant
                    i <= d.len(),
                    out@.len() == i,
                    forall|j: int| 0 <= j < d@.len() ==> (#[trigger] d@[j]).wf(),
                    forall|j: int| 0 <= j < i ==> (#[trigger] out@[j]).wf() && out@[j]@ == d@[j]@,
                decreases d.len() - i,
            {
                out.push(d[i].deep_clone());
                i += 1;
            }
            assert(values_of(out@) =~= values_of(d@));
            let ghost sv = values_of(s@);
            let mut k: usize = 0;
            assert(sv.subrange(0, sv.len() as int) =~= sv);
            while k < s.len()
                invariant
                    k <= s.len(),
                    sv == values_of(s@),
                    forall|j: int| 0 <= j < s@.len() ==> (#[trigger] s@[j]).wf(),
                    forall|j: int| 0 <= j < out@.len() ==> (#[trigger] out@[j]).wf(),
                    append_missing(values_of(d@), sv) == append_missing(
                        values_of(out@),
                        sv.subrange(k as int, sv.len() as int),
                    ),
                decreases s.len() - k,
            {
                let ghost before = values_of(out@);
                let ghost rest = sv.subrange(k as int, sv.len() as int);
                assert(rest[0] == s@[k as int]@);
                assert(rest.drop_first() =~= sv.subrange(k + 1, sv.len() as int));
                if !holds_value(&out, &s[k]) {
                    out.push(s[k].deep_clone());
                    assert(values_of(out@) =~= before.push(s@[k as int]@));
                }
                k += 1;
            }
            proof {
                lemma_array_values(out);
                assert(sv.subrange(sv.len() as int, sv.len() as int) =~= Seq::<
                    JsonValue,
                >::empty());
            }
            Json::Array(out)
        },
        _ => dest.deep_clone(),
    }
}

/// Merges `source` into `dest` at one level of the document, or, with
/// `hooks_level`, at the level of the events of a `hooks` section.
fn merge_level(dest: &Json, source: &Json, hooks_level: bool) -> (r: Json)
    requires
        dest.wf(),
        source.wf(),
    ensures
        r.wf(),
        r@ == merge_level_value(dest@, source@, hooks_level),
    decreases source,
{
    match (dest, source) {
        (Json::Object(d), Json::Object(s)) => {
            let ghost dm = dest@->Object_0;
            let ghost sm = source@->Object_0;
            let ghost target = merge_level_value(dest@, source@, hooks_level)->Object_0;
            proof {
                lemma_object_wf(*d);
                lemma_object_wf(*s);
                lemma_object_view(*d);
                lemma_object_view(*s);
            }
            let hooks = "hooks".to_owned();
            let mut out: Vec<(String, Json)> = Vec::new();
            let mut i: usize = 0;
            while i < d.len()
                invariant
                    i <= d.len(),
                    out@.len() == i,
                    decreases_to!(source => s),
                    *dest == Json::Object(*d),
                    *source == Json::Object(*s),
                    dest.wf(),
                    source.wf(),
                    dm == dest@->Object_0,
                    sm == source@->Object_0,
                    target == merge_level_value(dest@, source@, hooks_level)->Object_0,
                    hooks@ == "hooks"@,
                    forall|j: int|
                        0 <= j < i ==> {
                            &&& (#[trigger] out@[j]).0@ == d@[j].0@
                            &&& out@[j].1.wf()
                            &&& out@[j].1@ == target[d@[j].0@]
                        },
                decreases d.len() - i,
            {
                proof {
                    lemma_object_wf(*d);
                    lemma_object_wf(*s);
                    lemma_object_view(*d);
                    lemma_object_view(*s);
                }
                let key = d[i].0.clone();
                assert(dm.dom().contains(d@[i as int].0@));
                assert(dm[d@[i as int].0@] == d@[i as int].1@);
                let value = match find_field(s, &key) {
                    None => d[i].1.deep_clone(),
                    Some(j) => {
                        assert(sm.dom().contains(s@[j as int].0@));
                        assert(sm[s@[j as int].0@] == s@[j as int].1@);
                        if hooks_level {
                            merge_event_lists(&d[i].1, &s[j].1)
                        } else if key == hooks {
                            merge_level(&d[i].1, &s[j].1, true)
                        } else {
                            merge_level(&d[i].1, &s[j].1, false)
                        }
                    },
                };
                out.push((key, value));
                i += 1;
            }
            let mut p: usize = 0;
            while p < s.len()
                invariant
                    p <= s.len(),
                    out@.len() >= d@.len(),
                    *dest == Json::Object(*d),
                    *source == Json::Object(*s),
                    dest.wf(),
                    source.wf(),
                    dm == dest@->Object_0,
                    sm == source@->Object_0,
                    target == merge_level_value(dest@, source@, hooks_level)->Object_0,
                    forall|j: int|
                        0 <= j < d@.len() ==> {
                            &&& (#[trigger] out@[j]).0@ == d@[j].0@
                            &&& out@[j].1.wf()
                            &&& out@[j].1@ == target[d@[j].0@]
                        },
                    forall|j: int|
                        d@.len() <= j < out@.len() ==> {
                            &&& (#[trigger] out@[j]).1.wf()
                            &&& !has_key(d@, out@[j].0@)
                            &&& listed_before(s@, p as int, out@[j].0@)
                            &&& out@[j].1@ == target[out@[j].0@]
                        },
                    forall|q: int| 0 <= q < p ==> has_key(out@, (#[trigger] s@[q]).0@),
                    distinct_keys(out@),
                decreases s.len() - p,
            {
                proof {
                    lemma_object_wf(*d);
                    lemma_object_wf(*s);
                    lemma_object_view(*d);
                    lemma_object_view(*s);
                }
                let ghost before = out@;
                let ghost key = s@[p as int].0@;
                assert(sm.dom().contains(key));
                assert(sm[key] == s@[p as int].1@);
                match find_field(d, &s[p].0) {
                    Some(j) => {
                        assert(out@[j as int].0@ == key);
                    },
                    None => {
                        out.push((s[p].0.clone(), s[p].1.deep_clone()));
                        let ghost last = out@.len() - 1;
                        assert(out@[last].0@ == key);
                        assert(listed_before(s@, p + 1, key));
                        assert(distinct_keys(out@)) by {
                            assert forall|x: int, y: int| 0 <= x < y < out@.len() implies (
                            #[trigger] out@[x]).0@ != (#[trigger] out@[y]).0@ by {
                                if y < last {
                                    assert(before[x].0@ != before[y].0@);
                                } else if x < d@.len() {
                                    assert(d@[x].0@ == before[x].0@);
                                } else {
                                    assert(listed_before(s@, p as int, before[x].0@));
                                    let q = choose|q: int|
                                        0 <= q < p && (#[trigger] s@[q]).0@ == before[x].0@;
                                    assert(s@[q].0@ != s@[p as int].0@);
                                }
                            }
                        }
                    },
                }
                proof {
                    assert forall|q: int| 0 <= q < p + 1 implies has_key(
                        out@,
                        (#[trigger] s@[q]).0@,
                    ) by {
                        if q < p {
                            assert(has_key(before, s@[q].0@));
                            let w = choose|w: int|
                                0 <= w < before.len() && (#[trigger] before[w]).0@ == s@[q].0@;
                            assert(out@[w].0@ == s@[q].0@);
                        }
                    }
                    assert forall|j: int| d@.len() <= j < out@.len() implies listed_before(
                        s@,
                        p + 1,
                        (#[trigger] out@[j]).0@,
                    ) by {
                        if j < before.len() {
                            assert(listed_before(s@, p as int, before[j].0@));
                            let q = choose|q: int|
                                0 <= q < p && (#[trigger] s@[q]).0@ == before[j].0@;
                            assert(s@[q].0@ == out@[j].0@);
                        }
                    }
                }
                p += 1;
            }
            proof {
                lemma_object_view(*d);
                lemma_object_view(*s);
                assert forall|j: int| 0 <= j < out@.len() implies target.dom().contains(
                    (#[trigger] out@[j]).0@,
                ) && target[out@[j].0@] == out@[j].1@ by {
                    if j < d@.len() {
                        assert(dm.dom().contains(d@[j].0@));
                    } else {
                        assert(listed_before(s@, s@.len() as int, out@[j].0@));
                        let q = choose|q: int|
                            0 <= q < s@.len() && (#[trigger] s@[q]).0@ == out@[j].0@;
                        assert(sm.dom().contains(s@[q].0@));
                    }
                }
                assert forall|k: Seq<char>| target.dom().contains(k) implies has_key(out@, k) by {
                    if dm.dom().contains(k) {
                        let j = choose|j: int| 0 <= j < d@.len() && (#[trigger] d@[j]).0@ == k;
                        assert(out@[j].0@ == k);
                    } else {
                        let q = choose|q: int| 0 <= q < s@.len() && (#[trigger] s@[q]).0@ == k;
                        assert(has_key(out@, s@[q].0@));
                    }
                }
                lemma_object_is(out, target);
            }
            Json::Object(out)
        },
        _ => if hooks_level {
            dest.deep_clone()
        } else {
            source.deep_clone()
        },
    }
}

/// One of the first `p` members of `fields` has the key `k`.
pub open spec fn listed_before(fields: Seq<(String, Json)>, p: int, k: Seq<char>) -> bool {
    exists|q: int| 0 <= q < p && (#[trigger] fields[q]).0@ == k
}

/// Merges `source` into `dest`, level by level. A key that only the
/// destination has is kept; a key that only the source has is taken over; a
/// key of both is merged where both values are objects and replaced by the
/// source's value where they are not. Under the key `hooks` the event lists
/// are united instead.
pub fn merge_json_values(dest: &Json, source: &Json) -> (r: Json)
    requires
        dest.wf(),
        source.wf(),
    ensures
        r.wf(),
        r@ == merge_values(dest@, source@),
{
    merge_level(dest, source, false)
}

/// Merges the `hooks` section `source` into the section `dest`: an event that
/// the destination lacks is taken over with its whole list; for an event of
/// both, each entry of the source whose value is not yet in the destination's
/// list is appended to it.
pub fn merge_hooks(dest: &Json, source: &Json) -> (r: Json)
    requires
        dest.wf(),
        source.wf(),
    ensures
        r.wf(),
        r@ == merge_hooks_value(dest@, source@),
{
    merge_level(dest, source, true)
}


/// Why a settings document could not be changed.
#[derive(Debug)]
pub enum SettingsError {
    /// The text is not a JSON document; the message says why.
    Parse(String),
    /// A place that must hold an object holds something else.
    NotAnObject,
}

/// The members of a value that is used as an object: `null` counts as an
/// object without members; a scalar or an array cannot be used as one.
pub open spec fn members_or_empty(v: JsonValue) -> Option<Map<Seq<char>, JsonValue>> {
    match v {
        JsonValue::Object(m) => Some(m),
        JsonValue::Null => Some(Map::empty()),
        _ => None,
    }
}

/// The command of a hook: its kind, the command line, and the timeout where
/// one is given.
pub open spec fn hook_command_entry(
    hook_type: Seq<char>,
    command: Seq<char>,
    timeout: Option<u32>,
) -> JsonValue {
    let base = Map::<Seq<char>, JsonValue>::empty().insert(
        "type"@,
        JsonValue::Text(hook_type),
    ).insert("command"@, JsonValue::Text(command));
    JsonValue::Object(
        match timeout {
            Some(t) => base.insert("timeout"@, JsonValue::Number(NumberValue::Int(t as int))),
            None => base,
        },
    )
}

/// The registration entry that holds one hook command.
pub open spec fn hook_registration(
    hook_type: Seq<char>,
    command: Seq<char>,
    timeout: Option<u32>,
) -> JsonValue {
    JsonValue::Object(
        Map::<Seq<char>, JsonValue>::empty().insert(
            "hooks"@,
            JsonValue::Array(seq![hook_command_entry(hook_type, command, timeout)]),
        ),
    )
}

/// The hook command `hook` has a textual `command` that contains `name`.
pub open spec fn hook_mentions(hook: JsonValue, name: Seq<char>) -> bool {
    &&& hook is Object
    &&& hook->Object_0.dom().contains("command"@)
    &&& hook->Object_0["command"@] is Text
    &&& contains_text(hook->Object_0["command"@]->Text_0, name)
}

/// Some hook command of the list `hooks` mentions `name`.
pub open spec fn any_hook_mentions(hooks: Seq<JsonValue>, name: Seq<char>) -> bool {
    exists|i: int| 0 <= i < hooks.len() && hook_mentions(#[trigger] hooks[i], name)
}

/// The registration entry `entry` lists, under `hooks`, a command that
/// mentions `name`.
pub open spec fn registration_mentions(entry: JsonValue, name: Seq<char>) -> bool {
    &&& entry is Object
    &&& entry->Object_0.dom().contains("hooks"@)
    &&& entry->Object_0["hooks"@] is Array
    &&& any_hook_mentions(entry->Object_0["hooks"@]->Array_0, name)
}

/// Some registration entry of `list` mentions `name`.
pub open spec fn list_mentions(list: Seq<JsonValue>, name: Seq<char>) -> bool {
    exists|i: int| 0 <= i < list.len() && registration_mentions(#[trigger] list[i], name)
}

/// The list of an event after registering a hook: where it is an array that
/// does not mention the hook's name yet, the registration is appended;
/// anything else stays as it is.
pub open spec fn registered_list(
    list: JsonValue,
    name: Seq<char>,
    hook_type: Seq<char>,
    command: Seq<char>,
    timeout: Option<u32>,
) -> JsonValue {
    match list {
        JsonValue::Array(l) => if list_mentions(l, name) {
            list
        } else {
            JsonValue::Array(l.push(hook_registration(hook_type, command, timeout)))
        },
        _ => list,
    }
}

/// The settings document after registering a hook for `event`, or `None`
/// where the document, or its `hooks` section, is neither an object nor
/// `null`. A missing `hooks` section and a missing event list are created.
pub open spec fn register_hook_value(
    settings: JsonValue,
    event: Seq<char>,
    name: Seq<char>,
    hook_type: Seq<char>,
    command: Seq<char>,
    timeout: Option<u32>,
) -> Option<JsonValue> {
    match members_or_empty(settings) {
        None => None,
        Some(top) => {
            let hooks = if top.dom().contains("hooks"@) {
                top["hooks"@]
            } else {
                JsonValue::Object(Map::empty())
            };
            match members_or_empty(hooks) {
                None => None,
                Some(events) => {
                    let list = if events.dom().contains(event) {
                        events[event]
                    } else {
                        JsonValue::Array(Seq::empty())
                    };
                    Some(
                        JsonValue::Object(
                            top.insert(
                                "hooks"@,
                                JsonValue::Object(
                                    events.insert(
                                        event,
                                        registered_list(list, name, hook_type, command, timeout),
                                    ),
                                ),
                            ),
                        ),
                    )
                },
            }
        },
    }
}

/// The document with one top-level key set, or `None` where the document is
/// neither an object nor `null`.
pub open spec fn set_key_value(settings: JsonValue, key: Seq<char>, value: JsonValue) -> Option<
    JsonValue,
> {
    match members_or_empty(settings) {
        None => None,
        Some(top) => Some(JsonValue::Object(top.insert(key, value))),
    }
}

/// The value of `statusLine`: a command without padding.
pub open spec fn statusline_value(command: Seq<char>) -> JsonValue {
    JsonValue::Object(
        Map::<Seq<char>, JsonValue>::empty().insert("type"@, JsonValue::Text("command"@)).insert(
            "command"@,
            JsonValue::Text(command),
        ).insert("padding"@, JsonValue::Number(NumberValue::Int(0))),
    )
}

/// Whether the hook command `hook` has a textual `command` that contains `name`.
fn hook_has_command(hook: &Json, name: &str, command_key: &String) -> (r: bool)
    requires
        hook.wf(),
        command_key@ == "command"@,
    ensures
        r == hook_mentions(hook@, name@),
{
    match hook.get(command_key) {
        Some(Json::Text(cmd)) => contains(cmd.as_str(), name),
        _ => false,
    }
}

/// Whether the registration entry lists a command that mentions `name`.
fn entry_mentions(entry: &Json, name: &str, hooks_key: &String, command_key: &String) -> (r: bool)
    requires
        entry.wf(),
        hooks_key@ == "hooks"@,
        command_key@ == "command"@,
    ensures
        r == registration_mentions(entry@, name@),
{
    match entry.get(hooks_key) {
        Some(Json::Array(hs)) => {
            proof {
                lemma_array_wf(*hs);
                lemma_array_values(*hs);
            }
            let ghost hv = values_of(hs@);
            let mut i: usize = 0;
            while i < hs.len()
                invariant
                    i <= hs.len(),
                    command_key@ == "command"@,
                    hv == values_of(hs@),
                    entry@ is Object,
                    entry@->Object_0.dom().contains("hooks"@),
                    entry@->Object_0["hooks"@] == JsonValue::Array(hv),
                    forall|j: int| 0 <= j < hs@.len() ==> (#[trigger] hs@[j]).wf(),
                    forall|j: int| 0 <= j < i ==> !hook_mentions(#[trigger] hv[j], name@),
                decreases hs.len() - i,
            {
                if hook_has_command(&hs[i], name, command_key) {
                    assert(hook_mentions(hv[i as int], name@));
                    return true;
                }
                i += 1;
            }
            false
        },
        _ => false,
    }
}

/// Whether some registration entry of `items` mentions `name`.
pub fn mentions_hook(items: &Vec<Json>, name: &str) -> (r: bool)
    requires
        forall|j: int| 0 <= j < items@.len() ==> (#[trigger] items@[j]).wf(),
    ensures
        r == list_mentions(values_of(items@), name@),
{
    let hooks_key = "hooks".to_owned();
    let command_key = "command".to_owned();
    let ghost lv = values_of(items@);
    let mut i: usize = 0;
    while i < items.len()
        invariant
            i <= items.len(),
            hooks_key@ == "hooks"@,
            command_key@ == "command"@,
            lv == values_of(items@),
            forall|j: int| 0 <= j < items@.len() ==> (#[trigger] items@[j]).wf(),
            forall|j: int| 0 <= j < i ==> !registration_mentions(#[trigger] lv[j], name@),
        decreases items.len() - i,
    {
        if entry_mentions(&items[i], name, &hooks_key, &command_key) {
            assert(registration_mentions(lv[i as int], name@));
            return true;
        }
        i += 1;
    }
    false
}

/// The registration entry for one hook command.
pub fn make_registration(hook_type: &str, command: &str, timeout: Option<u32>) -> (r: Json)
    ensures
        r.wf(),
        r@ == hook_registration(hook_type@, command@, timeout),
{
    let type_key = "type".to_owned();
    let command_key = "command".to_owned();
    let timeout_key = "timeout".to_owned();
    let hooks_key = "hooks".to_owned();
    let e0 = Json::empty_object();
    let e1 = e0.with_member(&type_key, Json::Text(hook_type.to_owned()));
    let e2 = e1.with_member(&command_key, Json::Text(command.to_owned()));
    let entry = match timeout {
        Some(t) => e2.with_member(&timeout_key, Json::Number(JsonNumber::Unsigned(t as u64))),
        None => e2,
    };
    let mut list: Vec<Json> = Vec::new();
    list.push(entry);
    proof {
        lemma_array_values(list);
        assert(values_of(list@) =~= seq![hook_command_entry(hook_type@, command@, timeout)]);
    }
    let r0 = Json::empty_object();
    r0.with_member(&hooks_key, Json::Array(list))
}

/// The document read as an object: itself, or an empty object for `null`.
fn as_members(v: &Json) -> (r: Option<Json>)
    requires
        v.wf(),
    ensures
        match members_or_empty(v@) {
            Some(m) => r matches Some(j) && j.wf() && j@ == JsonValue::Object(m),
            None => r is None,
        },
{
    match v {
        Json::Object(_) => Some(v.deep_clone()),
        Json::Null => Some(Json::empty_object()),
        _ => None,
    }
}

/// Registers a hook in the settings document: makes sure that the `hooks`
/// section has a list for the hook's event, and appends one registration with
/// `hook_command` to it, unless an entry of the list already has a command
/// that contains the hook's name.
pub fn register_hook(settings: &Json, hook_command: &str, config: &HookConfig) -> (r: Result<
    Json,
    SettingsError,
>)
    requires
        settings.wf(),
    ensures
        match register_hook_value(
            settings@,
            config.event@,
            config.name@,
            config.hook_type@,
            hook_command@,
            config.timeout,
        ) {
            Some(v) => r matches Ok(j) && j.wf() && j@ == v,
            None => r matches Err(SettingsError::NotAnObject),
        },
{
    let hooks_key = "hooks".to_owned();
    let top = match as_members(settings) {
        Some(t) => t,
        None => {
            return Err(SettingsError::NotAnObject);
        },
    };
    let hooks = match top.get(&hooks_key) {
        Some(h) => h.deep_clone(),
        None => Json::empty_object(),
    };
    let events = match as_members(&hooks) {
        Some(e) => e,
        None => {
            return Err(SettingsError::NotAnObject);
        },
    };
    let list = match events.get(&config.event) {
        Some(l) => l.deep_clone(),
        None => {
            let empty: Vec<Json> = Vec::new();
            proof {
                lemma_array_values(empty);
                assert(values_of(empty@) =~= Seq::<JsonValue>::empty());
            }
            Json::Array(empty)
        },
    };
    let new_list = match list {
        Json::Array(items) => {
            proof {
                lemma_array_wf(items);
                lemma_array_values(items);
            }
            let mut items = items;
            if !mentions_hook(&items, config.name.as_str()) {
                let ghost before = values_of(items@);
                let reg = make_registration(
                    config.hook_type.as_str(),
                    hook_command,
                    config.timeout,
                );
                items.push(reg);
                proof {
                    lemma_array_values(items);
                    assert(values_of(items@) =~= before.push(
                        hook_registration(config.hook_type@, hook_command@, config.timeout),
                    ));
                }
            }
            Json::Array(items)
        },
        other => other,
    };
    let new_events = events.with_member(&config.event, new_list);
    Ok(top.with_member(&hooks_key, new_events))
}

/// Sets one top-level key of the document.
pub fn set_key(settings: &Json, key: &str, value: Json) -> (r: Result<Json, SettingsError>)
    requires
        settings.wf(),
        value.wf(),
    ensures
        match set_key_value(settings@, key@, value@) {
            Some(v) => r matches Ok(j) && j.wf() && j@ == v,
            None => r matches Err(SettingsError::NotAnObject),
        },
{
    match as_members(settings) {
        Some(top) => Ok(top.with_member(&key.to_owned(), value)),
        None => Err(SettingsError::NotAnObject),
    }
}

/// The value of `statusLine` for a command.
pub fn make_statusline(command: &str) -> (r: Json)
    ensures
        r.wf(),
        r@ == statusline_value(command@),
{
    let e0 = Json::empty_object();
    let e1 = e0.with_member(&"type".to_owned(), Json::Text("command".to_owned()));
    let e2 = e1.with_member(&"command".to_owned(), Json::Text(command.to_owned()));
    e2.with_member(&"padding".to_owned(), Json::Number(JsonNumber::Unsigned(0)))
}


/// The number of registration entries of `list` that mention `name`.
pub open spec fn count_mentions(list: Seq<JsonValue>, name: Seq<char>) -> nat
    decreases list.len(),
{
    if list.len() == 0 {
        0
    } else {
        count_mentions(list.drop_last(), name) + if registration_mentions(list.last(), name) {
            1nat
        } else {
            0nat
        }
    }
}

/// The registration entries of `event` in the document: the list under
/// `hooks`, or nothing where there is no such list.
pub open spec fn event_entries(doc: JsonValue, event: Seq<char>) -> Seq<JsonValue> {
    if doc is Object && doc->Object_0.dom().contains("hooks"@) && doc->Object_0["hooks"@] is Object
        && doc->Object_0["hooks"@]->Object_0.dom().contains(event)
        && doc->Object_0["hooks"@]->Object_0[event] is Array {
        doc->Object_0["hooks"@]->Object_0[event]->Array_0
    } else {
        Seq::empty()
    }
}

/// No entry is counted exactly where none mentions the name.
pub proof fn lemma_count_mentions_zero(list: Seq<JsonValue>, name: Seq<char>)
    ensures
        count_mentions(list, name) == 0 <==> !list_mentions(list, name),
    decreases list.len(),
{
    if list.len() > 0 {
        let rest = list.drop_last();
        lemma_count_mentions_zero(rest, name);
        if list_mentions(list, name) {
            let i = choose|i: int|
                0 <= i < list.len() && registration_mentions(#[trigger] list[i], name);
            if i < rest.len() {
                assert(rest[i] == list[i]);
            }
        }
        if list_mentions(rest, name) {
            let i = choose|i: int|
                0 <= i < rest.len() && registration_mentions(#[trigger] rest[i], name);
            assert(rest[i] == list[i]);
        }
        if registration_mentions(list.last(), name) {
            assert(list[list.len() - 1] == list.last());
        }
    }
}

/// Registering hooks of one name twice, with whatever commands, leaves at
/// most one entry that mentions the name, or as many as there were before.
pub proof fn lemma_register_twice_adds_once(
    settings: JsonValue,
    event: Seq<char>,
    name: Seq<char>,
    first_type: Seq<char>,
    first_command: Seq<char>,
    first_timeout: Option<u32>,
    second_type: Seq<char>,
    second_command: Seq<char>,
    second_timeout: Option<u32>,
)
    requires
        register_hook_value(settings, event, name, first_type, first_command, first_timeout)
            is Some,
    ensures
        ({
            let once = register_hook_value(
                settings,
                event,
                name,
                first_type,
                first_command,
                first_timeout,
            )->0;
            let twice = register_hook_value(
                once,
                event,
                name,
                second_type,
                second_command,
                second_timeout,
            );
            let before = count_mentions(event_entries(settings, event), name);
            &&& twice is Some
            &&& count_mentions(event_entries(twice->0, event), name) <= if before == 0 {
                1
            } else {
                before
            }
        }),
{
    let top = members_or_empty(settings)->0;
    let hooks = if top.dom().contains("hooks"@) {
        top["hooks"@]
    } else {
        JsonValue::Object(Map::empty())
    };
    let events = members_or_empty(hooks)->0;
    let list = if events.dom().contains(event) {
        events[event]
    } else {
        JsonValue::Array(Seq::empty())
    };
    let l1 = registered_list(list, name, first_type, first_command, first_timeout);
    let events1 = events.insert(event, l1);
    let once = JsonValue::Object(top.insert("hooks"@, JsonValue::Object(events1)));
    let l2 = registered_list(l1, name, second_type, second_command, second_timeout);
    let twice = register_hook_value(
        once,
        event,
        name,
        second_type,
        second_command,
        second_timeout,
    );
    assert(twice == Some(
        JsonValue::Object(
            top.insert("hooks"@, JsonValue::Object(events1)).insert(
                "hooks"@,
                JsonValue::Object(events1.insert(event, l2)),
            ),
        ),
    ));
    match list {
        JsonValue::Array(l) => {
            let r1 = hook_registration(first_type, first_command, first_timeout);
            let r2 = hook_registration(second_type, second_command, second_timeout);
            assert(event_entries(settings, event) =~= l);
            lemma_count_mentions_zero(l, name);
            if !list_mentions(l, name) {
                let a = l.push(r1);
                assert(a.drop_last() =~= l);
                lemma_count_mentions_zero(a, name);
                if !list_mentions(a, name) {
                    let b = a.push(r2);
                    assert(b.drop_last() =~= a);
                }
            }
        },
        _ => {},
    }
}

/// A registration mentions every text that its command contains.
pub proof fn lemma_registration_mentions(
    hook_type: Seq<char>,
    command: Seq<char>,
    timeout: Option<u32>,
    name: Seq<char>,
)
    requires
        contains_text(command, name),
    ensures
        registration_mentions(hook_registration(hook_type, command, timeout), name),
{
    reveal_strlit("type");
    reveal_strlit("command");
    reveal_strlit("timeout");
    assert("timeout"@[0] != "command"@[0]);
    let entry = hook_command_entry(hook_type, command, timeout);
    assert(hook_mentions(entry, name));
    let hooks = seq![entry];
    assert(hook_mentions(hooks[0], name));
}

/// Where the command of a hook contains the hook's name, registering it a
/// second time changes nothing.
pub proof fn lemma_register_idempotent(
    settings: JsonValue,
    event: Seq<char>,
    name: Seq<char>,
    hook_type: Seq<char>,
    command: Seq<char>,
    timeout: Option<u32>,
)
    requires
        contains_text(command, name),
        register_hook_value(settings, event, name, hook_type, command, timeout) is Some,
    ensures
        ({
            let once = register_hook_value(settings, event, name, hook_type, command, timeout);
            register_hook_value(once->0, event, name, hook_type, command, timeout) == once
        }),
{
    let top = members_or_empty(settings)->0;
    let hooks = if top.dom().contains("hooks"@) {
        top["hooks"@]
    } else {
        JsonValue::Object(Map::empty())
    };
    let events = members_or_empty(hooks)->0;
    let list = if events.dom().contains(event) {
        events[event]
    } else {
        JsonValue::Array(Seq::empty())
    };
    let l1 = registered_list(list, name, hook_type, command, timeout);
    let events1 = events.insert(event, l1);
    let top1 = top.insert("hooks"@, JsonValue::Object(events1));
    match list {
        JsonValue::Array(l) => {
            if !list_mentions(l, name) {
                let reg = hook_registration(hook_type, command, timeout);
                lemma_registration_mentions(hook_type, command, timeout, name);
                let a = l.push(reg);
                assert(registration_mentions(a[l.len() as int], name));
            }
        },
        _ => {},
    }
    assert(registered_list(l1, name, hook_type, command, timeout) == l1);
    assert(events1.insert(event, l1) =~= events1);
    assert(top1.insert("hooks"@, JsonValue::Object(events1)) =~= top1);
}


/// The text of a settings file, if the file exists.
pub open spec fn text_view(text: Option<&str>) -> Option<Seq<char>> {
    match text {
        Some(t) => Some(t@),
        None => None,
    }
}

/// The document that a settings file holds: what its text reads as, or an
/// empty object where there is no file.
pub open spec fn settings_document(text: Option<Seq<char>>) -> Result<JsonValue, Seq<char>> {
    match text {
        Some(t) => parsed_json(t),
        None => Ok(JsonValue::Object(Map::empty())),
    }
}

/// What a change of the settings file writes: the text of the changed
/// document, or the reason why nothing is written.
pub open spec fn written(
    r: Result<String, SettingsError>,
    document: Result<JsonValue, Seq<char>>,
    change: spec_fn(JsonValue) -> Option<JsonValue>,
) -> bool {
    match document {
        Err(m) => r matches Err(SettingsError::Parse(e)) && e@ == m,
        Ok(doc) => match change(doc) {
            None => r matches Err(SettingsError::NotAnObject),
            Some(v) => r matches Ok(t) && t@ == rendered_json(v),
        },
    }
}

/// What setting `statusLine` to `command` writes.
pub open spec fn statusline_written(
    r: Result<String, SettingsError>,
    document: Result<JsonValue, Seq<char>>,
    command: Seq<char>,
) -> bool {
    written(
        r,
        document,
        |doc: JsonValue| set_key_value(doc, "statusLine"@, statusline_value(command)),
    )
}

/// Reads the document of a settings file.
fn read_settings(text: Option<&str>) -> (r: Result<Json, SettingsError>)
    ensures
        match settings_document(text_view(text)) {
            Ok(v) => r matches Ok(j) && j.wf() && j@ == v,
            Err(m) => r matches Err(SettingsError::Parse(e)) && e@ == m,
        },
{
    match text {
        Some(t) => match Json::parse(t) {
            Ok(j) => Ok(j),
            Err(e) => Err(SettingsError::Parse(e)),
        },
        None => Ok(Json::empty_object()),
    }
}

/// Merges the settings file of the source into that of the destination, and
/// gives the text to write. Without a destination file the source's document
/// is written as it is. Nothing is written where one of the texts is not a
/// JSON document.
pub fn merge_settings_json(source_text: &str, dest_text: Option<&str>) -> (r: Result<
    String,
    SettingsError,
>)
    ensures
        match parsed_json(source_text@) {
            Err(m) => r matches Err(SettingsError::Parse(e)) && e@ == m,
            Ok(s) => match dest_text {
                None => r matches Ok(t) && t@ == rendered_json(s),
                Some(d) => match parsed_json(d@) {
                    Err(m) => r matches Err(SettingsError::Parse(e)) && e@ == m,
                    Ok(dv) => r matches Ok(t) && t@ == rendered_json(merge_values(dv, s)),
                },
            },
        },
{
    let source = match Json::parse(source_text) {
        Ok(j) => j,
        Err(e) => {
            return Err(SettingsError::Parse(e));
        },
    };
    match dest_text {
        None => Ok(source.render()),
        Some(d) => match Json::parse(d) {
            Err(e) => Err(SettingsError::Parse(e)),
            Ok(dest) => {
                let merged = merge_json_values(&dest, &source);
                Ok(merged.render())
            },
        },
    }
}

/// Registers a hook in the settings file and gives the text to write: see
/// [`register_hook`]. A missing file counts as an empty document.
pub fn register_hook_in_settings(
    settings_text: Option<&str>,
    hook_command: &str,
    config: &HookConfig,
) -> (r: Result<String, SettingsError>)
    ensures
        written(
            r,
            settings_document(text_view(settings_text)),
            |doc: JsonValue|
                register_hook_value(
                    doc,
                    config.event@,
                    config.name@,
                    config.hook_type@,
                    hook_command@,
                    config.timeout,
                ),
        ),
{
    let settings = match read_settings(settings_text) {
        Ok(j) => j,
        Err(e) => {
            return Err(e);
        },
    };
    match register_hook(&settings, hook_command, config) {
        Ok(j) => Ok(j.render()),
        Err(e) => Err(e),
    }
}

/// Sets `outputStyle` in the settings file to the style's name, whatever it
/// held, and gives the text to write.
pub fn set_output_style(settings_text: Option<&str>, style_name: &str) -> (r: Result<
    String,
    SettingsError,
>)
    ensures
        written(
            r,
            settings_document(text_view(settings_text)),
            |doc: JsonValue| set_key_value(doc, "outputStyle"@, JsonValue::Text(style_name@)),
        ),
{
    let settings = match read_settings(settings_text) {
        Ok(j) => j,
        Err(e) => {
            return Err(e);
        },
    };
    match set_key(&settings, "outputStyle", Json::Text(style_name.to_owned())) {
        Ok(j) => Ok(j.render()),
        Err(e) => Err(e),
    }
}

/// Sets `statusLine` in the settings file to the given command, whatever it
/// held, and gives the text to write.
pub fn set_statusline_command(settings_text: Option<&str>, command: &str) -> (r: Result<
    String,
    SettingsError,
>)
    ensures
        statusline_written(r, settings_document(text_view(settings_text)), command@),
{
    let settings = match read_settings(settings_text) {
        Ok(j) => j,
        Err(e) => {
            return Err(e);
        },
    };
    match set_key(&settings, "statusLine", make_statusline(command)) {
        Ok(j) => Ok(j.render()),
        Err(e) => Err(e),
    }
}

/// Sets `statusLine` in the settings file to the command that runs the
/// installed script `script_name`, and gives the text to write. The command
/// is the configuration home, `/statusline/` and the script's name; on
/// Windows it is the path of the script under the destination directory, as
/// the host builds it.
pub fn set_statusline(
    settings_text: Option<&str>,
    config_home: &str,
    dest_dir: &str,
    script_name: &str,
    platform: Platform,
) -> (r: Result<String, SettingsError>)
    ensures
        platform != Platform::Windows ==> statusline_written(
            r,
            settings_document(text_view(settings_text)),
            config_home@ + "/"@ + "statusline"@ + "/"@ + script_name@,
        ),
        exists|command: Seq<char>|
            statusline_written(r, settings_document(text_view(settings_text)), command),
{
    let command = installed_command(config_home, dest_dir, "statusline", script_name, platform);
    set_statusline_command(settings_text, command.as_str())
}


/// Registering a hook touches the `hooks` section only: every other key of
/// the document keeps its value.
pub proof fn lemma_register_keeps_other_keys(
    settings: JsonValue,
    event: Seq<char>,
    name: Seq<char>,
    hook_type: Seq<char>,
    command: Seq<char>,
    timeout: Option<u32>,
    key: Seq<char>,
)
    requires
        settings is Object,
        settings->Object_0.dom().contains(key),
        key != "hooks"@,
        register_hook_value(settings, event, name, hook_type, command, timeout) is Some,
    ensures
        ({
            let after = register_hook_value(settings, event, name, hook_type, command, timeout)->0;
            &&& after is Object
            &&& after->Object_0.dom().contains(key)
            &&& after->Object_0[key] == settings->Object_0[key]
        }),
{
}

/// Setting a key touches that key only: every other key of the document
/// keeps its value.
pub proof fn lemma_set_key_keeps_other_keys(
    settings: JsonValue,
    key: Seq<char>,
    value: JsonValue,
    other: Seq<char>,
)
    requires
        settings is Object,
        settings->Object_0.dom().contains(other),
        other != key,
    ensures
        ({
            let after = set_key_value(settings, key, value);
            &&& after is Some
            &&& after->0 is Object
            &&& after->0->Object_0.dom().contains(other)
            &&& after->0->Object_0[other] == settings->Object_0[other]
            &&& after->0->Object_0[key] == value
        }),
{
}

/// A merge never removes a key: every key of the destination and every key
/// of the source is a key of the result.
pub proof fn lemma_merge_keeps_keys(dest: JsonValue, source: JsonValue, k: Seq<char>)
    requires
        dest is Object,
        source is Object,
        dest->Object_0.dom().contains(k) || source->Object_0.dom().contains(k),
    ensures
        merge_values(dest, source) is Object,
        merge_values(dest, source)->Object_0.dom().contains(k),
{
}

} // verus!
