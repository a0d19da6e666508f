//! Filtering before exposure: the last gate before data reaches a
//! consumer. Fields whose classification is above the viewer's scope are
//! redacted, excluded or replaced by a hash.

use vstd::prelude::*;
use vstd::string::*;
use vstd::utf8::encode_utf8;

use crate::domain::json::{lemma_member_index, member_index, Json, JsonValue};
use crate::governance::types::{scope_rank, AccessScope, MaskStrategy, RestrictedFieldSpec};
use crate::text::{char_index, find_char, lemma_char_index_bounds};
use crate::trusted::{hex_encode, lower_hex, sha256, sha256_digest};

verus! {

/// Whether a field classified `level` is hidden from a viewer with scope
/// `viewer`: its rank is strictly higher.
pub open spec fn hidden_from(level: AccessScope, viewer: AccessScope) -> bool {
    scope_rank(level) > scope_rank(viewer)
}

/// The placeholder that replaces a redacted value.
pub open spec fn redacted_text() -> Seq<char> {
    "[REDACTED]"@
}

/// The pseudonym that replaces a hashed value: the lower-case hex SHA-256
/// digest of the value's compact JSON text, its object members in key
/// order as `serde_json` writes them.
pub open spec fn pseudonym(v: Json) -> Seq<char> {
    lower_hex(sha256(encode_utf8(v.sorted_text())))
}

/// The value after masking the field at `path` (a key, or a key, a dot and
/// the path inside that member), and whether the field was found. Only
/// objects have fields.
pub open spec fn masked(v: Json, path: Seq<char>, strategy: MaskStrategy) -> (Json, bool)
    decreases path.len(),
{
    match v {
        Json::Object(members) => {
            let dot = char_index(path, '.');
            let head = if dot < 0 { path } else { path.take(dot) };
            let i = member_index(members, head);
            if i < 0 {
                (v, false)
            } else if dot < 0 {
                match strategy {
                    MaskStrategy::Exclude => (Json::Object(members.remove(i)), true),
                    MaskStrategy::Redact => (
                        Json::Object(members.update(i, (head, Json::Str(redacted_text())))),
                        true,
                    ),
                    MaskStrategy::Hash => (
                        Json::Object(members.update(i, (head, Json::Str(pseudonym(members[i].1))))),
                        true,
                    ),
                }
            } else {
                proof {
                    lemma_char_index_bounds(path, '.');
                }
                let inner = masked(members[i].1, path.skip(dot + 1), strategy);
                (Json::Object(members.update(i, (members[i].0, inner.0))), inner.1)
            }
        },
        _ => (v, false),
    }
}

/// The payload and masked paths after applying the first `n` specs in
/// order: each spec hidden from the viewer masks its field, and its path is
/// recorded when the field was found.
pub open spec fn filtered(
    payload: Json,
    viewer: AccessScope,
    specs: Seq<RestrictedFieldSpec>,
    n: nat,
) -> (Json, Seq<Seq<char>>)
    decreases n,
{
    if n == 0 {
        (payload, Seq::empty())
    } else {
        let prev = filtered(payload, viewer, specs, (n - 1) as nat);
        let spec = specs[n - 1];
        if hidden_from(spec.level, viewer) {
            let step = masked(prev.0, spec.field_path@, spec.mask_strategy);
            (step.0, if step.1 { prev.1.push(spec.field_path@) } else { prev.1 })
        } else {
            prev
        }
    }
}

/// Outcome of filtering one record.
#[derive(Debug, PartialEq)]
pub struct FilterResult {
    /// The (possibly masked) payload.
    pub payload: JsonValue,
    /// Paths of the fields that were masked or excluded.
    pub masked_fields: Vec<String>,
}

pub struct FilteringGate;

impl FilteringGate {
    /// Applies filtering before exposure to a payload: each field spec
    /// whose level is above the viewer's scope masks its field with its
    /// strategy.
    pub fn filter(
        payload: &JsonValue,
        viewer_scope: AccessScope,
        field_specs: &[RestrictedFieldSpec],
    ) -> (r: FilterResult)
        ensures
            (r.payload@, r.masked_fields@.map_values(|p: String| p@)) == filtered(
                payload@,
                viewer_scope,
                field_specs@,
                field_specs@.len(),
            ),
    {
        let mut out = payload.duplicate();
        let mut masked_fields: Vec<String> = Vec::new();
        let mut i: usize = 0;
        while i < field_specs.len()
            invariant
                i <= field_specs@.len(),
                (out@, masked_fields@.map_values(|p: String| p@)) == filtered(
                    payload@,
                    viewer_scope,
                    field_specs@,
                    i as nat,
                ),
            decreases field_specs@.len() - i,
        {
            let spec = &field_specs[i];
            if Self::should_mask(spec.level, viewer_scope) {
                if Self::apply_mask(&mut out, spec.field_path.as_str(), spec.mask_strategy) {
                    masked_fields.push(spec.field_path.clone());
                    assert(masked_fields@.map_values(|p: String| p@) =~= filtered(
                        payload@,
                        viewer_scope,
                        field_specs@,
                        i as nat,
                    ).1.push(spec.field_path@));
                }
            }
            i = i + 1;
        }
        FilterResult { payload: out, masked_fields }
    }

    /// Whether the field's scope is above the viewer's.
    fn should_mask(field_level: AccessScope, viewer_scope: AccessScope) -> (r: bool)
        ensures
            r == hidden_from(field_level, viewer_scope),
    {
        Self::scope_rank(field_level) > Self::scope_rank(viewer_scope)
    }

    fn scope_rank(scope: AccessScope) -> (r: u8)
        ensures
            r == scope_rank(scope),
    {
        match scope {
            AccessScope::Public => 0,
            AccessScope::Internal => 1,
            AccessScope::Restricted => 2,
            AccessScope::HighlySensitive => 3,
        }
    }

    /// Masks the field at `field_path` (a key, or `parent.rest`) of an
    /// object; true if the field was found.
    fn apply_mask(value: &mut JsonValue, field_path: &str, strategy: MaskStrategy) -> (r: bool)
        ensures
            (final(value)@, r) == masked(old(value)@, field_path@, strategy),
        decreases field_path@.len(),
    {
        if !value.is_object() {
            return false;
        }
        let dot = find_char(field_path, '.');
        let len = field_path.unicode_len();
        let head: &str = match dot {
            Some(d) => field_path.substring_char(0, d),
            None => field_path,
        };
        proof {
            if dot is Some {
                assert(head@ =~= field_path@.take(dot->0 as int));
            }
        }
        proof {
            lemma_member_index(value@->Object_0, head@);
        }
        let pos = match value.member_position(head) {
            Some(p) => p,
            None => {
                return false;
            },
        };
        let ghost members = value@->Object_0;
        match dot {
            None => {
                match strategy {
                    MaskStrategy::Exclude => {
                        let _removed = value.remove_member_at(pos);
                    },
                    MaskStrategy::Redact => {
                        let removed = value.remove_member_at(pos);
                        value.insert_member_at(
                            pos,
                            removed.0,
                            JsonValue::from_str_value("[REDACTED]"),
                        );
                        assert(members.remove(pos as int).insert(
                            pos as int,
                            (head@, Json::Str(redacted_text())),
                        ) =~= members.update(pos as int, (head@, Json::Str(redacted_text()))));
                    },
                    MaskStrategy::Hash => {
                        let removed = value.remove_member_at(pos);
                        let text = removed.1.to_sorted_text();
                        let digest = sha256_digest(text.as_str().as_bytes());
                        let hash = hex_encode(digest.as_slice());
                        let ghost p = pseudonym(members[pos as int].1);
                        assert(hash@ == p);
                        value.insert_member_at(pos, removed.0, JsonValue::String(hash));
                        assert(members.remove(pos as int).insert(pos as int, (head@, Json::Str(p)))
                            =~= members.update(pos as int, (head@, Json::Str(p))));
                    },
                }
                true
            },
            Some(d) => {
                let rest = field_path.substring_char(d + 1, len);
                assert(rest@ =~= field_path@.skip(d + 1));
                let mut removed = value.remove_member_at(pos);
                let found = Self::apply_mask(&mut removed.1, rest, strategy);
                let ghost child = removed.1@;
                value.insert_member_at(pos, removed.0, removed.1);
                assert(members.remove(pos as int).insert(pos as int, (members[pos as int].0, child))
                    =~= members.update(pos as int, (members[pos as int].0, child)));
                found
            },
        }
    }
}

/// A field hidden from the viewer never comes out of the filter with its value:
/// after filtering, a top-level field whose spec is hidden from the viewer
/// and that was found is either absent (excluded) or holds the placeholder
/// or the pseudonym of its value.
pub proof fn lemma_top_level_mask(
    members: Seq<(Seq<char>, Json)>,
    key: Seq<char>,
    strategy: MaskStrategy,
)
    requires
        char_index(key, '.') < 0,
        member_index(members, key) >= 0,
    ensures
        ({
            let i = member_index(members, key);
            let out = masked(Json::Object(members), key, strategy);
            &&& out.1
            &&& out.0 is Object
            &&& match strategy {
                MaskStrategy::Exclude => out.0->Object_0 == members.remove(i),
                MaskStrategy::Redact => out.0->Object_0[i] == (key, Json::Str(redacted_text())),
                MaskStrategy::Hash => out.0->Object_0[i] == (key, Json::Str(pseudonym(members[i].1))),
            }
        }),
{
    lemma_member_index(members, key);
}

/// A viewer at least as privileged as a field's level sees it untouched:
/// a spec that is not hidden from the viewer changes nothing.
pub proof fn lemma_visible_spec_is_noop(
    payload: Json,
    viewer: AccessScope,
    specs: Seq<RestrictedFieldSpec>,
    n: nat,
)
    requires
        forall|k: int| 0 <= k < n ==> !hidden_from(#[trigger] specs[k].level, viewer),
    ensures
        filtered(payload, viewer, specs, n) == (payload, Seq::<Seq<char>>::empty()),
    decreases n,
{
    if n > 0 {
        lemma_visible_spec_is_noop(payload, viewer, specs, (n - 1) as nat);
        assert(!hidden_from(specs[n - 1].level, viewer));
    }
}

/// Access scopes are strictly ordered Public < Internal < Restricted <
/// HighlySensitive, and a field is hidden from a viewer exactly when its
/// level comes strictly later in that order: never from a viewer at its
/// own level, never in both directions, and transitively.
pub proof fn lemma_scope_order()
    ensures
        hidden_from(AccessScope::Internal, AccessScope::Public),
        hidden_from(AccessScope::Restricted, AccessScope::Internal),
        hidden_from(AccessScope::HighlySensitive, AccessScope::Restricted),
        forall|a: AccessScope| !#[trigger] hidden_from(a, a),
        forall|a: AccessScope, b: AccessScope|
            #[trigger] hidden_from(a, b) ==> !hidden_from(b, a),
        forall|a: AccessScope, b: AccessScope, c: AccessScope|
            #[trigger] hidden_from(a, b) && #[trigger] hidden_from(b, c) ==> hidden_from(a, c),
        forall|a: AccessScope, b: AccessScope|
            a != b ==> #[trigger] hidden_from(a, b) || hidden_from(b, a),
{
}

} // verus!
