//! Reading texts and lists out of a payload, normalising property names
//! and merging lists without repeats.

use vstd::prelude::*;
use vstd::string::*;

use crate::domain::json::{Json, JsonValue};
use crate::text::{contains_str, join_strings, joined, views};
use crate::trusted::{
    alphanumeric, char_lowercase, is_alphanumeric, lowercase_char, trim, trimmed,
};

verus! {

/// The characters of an optional string.
pub open spec fn opt_chars(o: Option<String>) -> Option<Seq<char>> {
    match o {
        Some(s) => Some(s@),
        None => None,
    }
}

/// A string value, trimmed, when something is left.
pub open spec fn json_text_of(v: Json) -> Option<Seq<char>> {
    match v {
        Json::Str(s) => if trimmed(s).len() > 0 {
            Some(trimmed(s))
        } else {
            None
        },
        _ => None,
    }
}

/// The trimmed, non-empty strings among `items`, in order.
pub open spec fn string_items(items: Seq<Json>) -> Seq<Seq<char>>
    decreases items.len(),
{
    if items.len() == 0 {
        Seq::empty()
    } else {
        let rest = string_items(items.drop_last());
        match json_text_of(items.last()) {
            Some(t) => rest.push(t),
            None => rest,
        }
    }
}

/// The list a value holds: the trimmed non-empty strings of an array, or
/// a single trimmed non-empty string.
pub open spec fn list_values_of(v: Option<Json>) -> Seq<Seq<char>> {
    match v {
        None => Seq::empty(),
        Some(Json::Array(items)) => string_items(items),
        Some(other) => match json_text_of(other) {
            Some(t) => seq![t],
            None => Seq::empty(),
        },
    }
}

/// A property name reduced to its alphanumeric characters, lower-cased.
pub open spec fn normalized_name(s: Seq<char>) -> Seq<char>
    decreases s.len(),
{
    if s.len() == 0 {
        Seq::empty()
    } else {
        normalized_name(s.drop_last()) + if alphanumeric(s.last()) {
            char_lowercase(s.last())
        } else {
            Seq::empty()
        }
    }
}

/// Whether `vals[i]` has a non-empty key that no earlier value has.
pub open spec fn first_of_key(vals: Seq<Seq<char>>, i: int) -> bool {
    &&& normalized_name(vals[i]).len() > 0
    &&& forall|j: int| 0 <= j < i ==> normalized_name(#[trigger] vals[j]) != normalized_name(vals[i])
}

/// The values with a non-empty key, each key kept at its first value.
pub open spec fn distinct_by_key(vals: Seq<Seq<char>>) -> Seq<Seq<char>>
    decreases vals.len(),
{
    if vals.len() == 0 {
        Seq::empty()
    } else {
        let rest = distinct_by_key(vals.drop_last());
        if first_of_key(vals, vals.len() - 1) {
            rest.push(vals.last())
        } else {
            rest
        }
    }
}

/// The merged list text: the distinct values joined by `, `, or `None`
/// when none is left.
pub open spec fn combined_text(vals: Seq<Seq<char>>) -> Option<Seq<char>> {
    let kept = distinct_by_key(vals);
    if kept.len() == 0 {
        None
    } else {
        Some(joined(kept, ", "@))
    }
}

/// A string value, trimmed, when something is left.
pub fn json_text(value: &JsonValue) -> (r: Option<String>)
    ensures
        opt_chars(r) == json_text_of(value@),
{
    match value.as_str() {
        Some(s) => {
            let t = trim(s.as_str());
            if t.unicode_len() > 0 {
                Some(String::from_str(t))
            } else {
                None
            }
        },
        None => None,
    }
}

/// The list a value holds; empty for a missing value.
pub fn json_list_values(value: Option<&JsonValue>) -> (r: Vec<String>)
    ensures
        views(r@) == list_values_of(
            match value {
                Some(v) => Some(v@),
                None => None,
            },
        ),
{
    match value {
        None => {
            let r: Vec<String> = Vec::new();
            assert(views(r@) =~= Seq::<Seq<char>>::empty());
            r
        },
        Some(v) => match v.as_array() {
            Some(items) => {
                let ghost model = v@->Array_0;
                let mut out: Vec<String> = Vec::new();
                let mut i: usize = 0;
                while i < items.len()
                    invariant
                        i <= items@.len(),
                        model.len() == items@.len(),
                        forall|k: int| 0 <= k < items@.len() ==> #[trigger] model[k] == items@[k]@,
                        views(out@) == string_items(model.take(i as int)),
                    decreases items@.len() - i,
                {
                    assert(model.take(i + 1).drop_last() =~= model.take(i as int));
                    assert(model.take(i + 1).last() == items@[i as int]@);
                    match json_text(&items[i]) {
                        Some(t) => {
                            out.push(t);
                            assert(views(out@) =~= views(out@.drop_last()).push(out@.last()@));
                        },
                        None => {},
                    }
                    i = i + 1;
                }
                assert(model.take(items@.len() as int) =~= model);
                out
            },
            None => {
                let mut out: Vec<String> = Vec::new();
                match json_text(v) {
                    Some(t) => {
                        out.push(t);
                        assert(views(out@) =~= seq![out@[0]@]);
                    },
                    None => {
                        assert(views(out@) =~= Seq::<Seq<char>>::empty());
                    },
                }
                out
            },
        },
    }
}

/// A property name reduced to its alphanumeric characters, lower-cased,
/// so that `Major_Interests` and `major interests` name one property.
pub fn normalize_property_name(value: &str) -> (r: String)
    ensures
        r@ == normalized_name(value@),
{
    let n = value.unicode_len();
    let mut out = String::new();
    let mut i: usize = 0;
    while i < n
        invariant
            n == value@.len(),
            i <= n,
            out@ == normalized_name(value@.take(i as int)),
        decreases n - i,
    {
        let c = value.get_char(i);
        assert(value@.take(i + 1).drop_last() =~= value@.take(i as int));
        assert(value@.take(i + 1).last() == c);
        if is_alphanumeric(c) {
            let lower = lowercase_char(c);
            out.append(lower.as_str());
        } else {
            assert(out@ + Seq::<char>::empty() =~= out@);
        }
        i = i + 1;
    }
    assert(value@.take(n as int) =~= value@);
    out
}

/// The values joined by `, `, keeping only the first value of each
/// normalised key and dropping values whose key is empty; `None` when
/// nothing is left.
pub fn combine_list_texts(values: &Vec<String>) -> (r: Option<String>)
    ensures
        opt_chars(r) == combined_text(views(values@)),
{
    let ghost vals = views(values@);
    let mut seen: Vec<String> = Vec::new();
    let mut merged: Vec<String> = Vec::new();
    let mut i: usize = 0;
    while i < values.len()
        invariant
            i <= values@.len(),
            vals == views(values@),
            views(merged@) == distinct_by_key(vals.take(i as int)),
            forall|k: Seq<char>|
                views(seen@).contains(k) <==> (k.len() > 0 && exists|j: int|
                    0 <= j < i && normalized_name(#[trigger] vals[j]) == k),
        decreases values@.len() - i,
    {
        let key = normalize_property_name(values[i].as_str());
        let ghost t = vals.take(i + 1);
        assert(t.drop_last() =~= vals.take(i as int));
        assert(t.last() == vals[i as int]);
        assert(vals[i as int] == values@[i as int]@);
        let dup = contains_str(&seen, key.as_str());
        proof {
            assert forall|j: int| 0 <= j < i implies #[trigger] t[j] == vals[j] by {}
            if dup {
                let j = choose|j: int| 0 <= j < i && normalized_name(#[trigger] vals[j]) == key@;
                assert(t[j] == vals[j]);
                assert(!first_of_key(t, i as int));
            } else if key@.len() > 0 {
                assert forall|j: int| 0 <= j < i implies normalized_name(#[trigger] t[j])
                    != normalized_name(t[i as int]) by {
                    assert(t[j] == vals[j]);
                    if normalized_name(vals[j]) == key@ {
                        assert(views(seen@).contains(key@));
                    }
                }
                assert(first_of_key(t, i as int));
            }
        }
        if key.unicode_len() > 0 && !dup {
            let ghost old_seen = views(seen@);
            seen.push(key);
            merged.push(values[i].clone());
            proof {
                assert(views(merged@) =~= views(merged@.drop_last()).push(vals[i as int]));
                assert(views(seen@) =~= old_seen.push(normalized_name(vals[i as int])));
                assert forall|k: Seq<char>|
                    views(seen@).contains(k) <==> (k.len() > 0 && exists|j: int|
                        0 <= j < i + 1 && normalized_name(#[trigger] vals[j]) == k) by {
                    if views(seen@).contains(k) && k != normalized_name(vals[i as int]) {
                        assert(old_seen.contains(k)) by {
                            let m = choose|m: int| 0 <= m < views(seen@).len() && views(seen@)[m] == k;
                            assert(m < old_seen.len());
                            assert(old_seen[m] == k);
                        }
                    }
                    if k.len() > 0 && exists|j: int|
                        0 <= j < i + 1 && normalized_name(#[trigger] vals[j]) == k {
                        if k != normalized_name(vals[i as int]) {
                            let j = choose|j: int| 0 <= j < i + 1 && normalized_name(#[trigger] vals[j]) == k;
                            assert(j < i);
                            assert(old_seen.contains(k));
                            let m = choose|m: int| 0 <= m < old_seen.len() && old_seen[m] == k;
                            assert(views(seen@)[m] == k);
                        } else {
                            assert(views(seen@)[views(seen@).len() - 1] == k);
                        }
                    }
                }
            }
        } else {
            proof {
                assert forall|k: Seq<char>|
                    views(seen@).contains(k) <==> (k.len() > 0 && exists|j: int|
                        0 <= j < i + 1 && normalized_name(#[trigger] vals[j]) == k) by {
                    if k.len() > 0 && exists|j: int|
                        0 <= j < i + 1 && normalized_name(#[trigger] vals[j]) == k {
                        let j = choose|j: int| 0 <= j < i + 1 && normalized_name(#[trigger] vals[j]) == k;
                        if j == i {
                            assert(key@ == k);
                        }
                    }
                }
            }
        }
        i = i + 1;
    }
    assert(vals.take(values@.len() as int) =~= vals);
    if merged.len() == 0 {
        None
    } else {
        Some(join_strings(&merged, ", "))
    }
}

/// The merged list text of one value.
pub fn json_list_text(value: Option<&JsonValue>) -> (r: Option<String>)
    ensures
        opt_chars(r) == combined_text(
            list_values_of(
                match value {
                    Some(v) => Some(v@),
                    None => None,
                },
            ),
        ),
{
    let values = json_list_values(value);
    combine_list_texts(&values)
}

} // verus!
