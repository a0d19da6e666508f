//! JSON values as the library holds them, their mathematical model, and
//! their compact text.
//!
//! Numbers are kept as their decimal text, so that no floating-point value
//! is ever needed; objects keep their members in order.

use vstd::prelude::*;
use vstd::string::*;

use crate::text::{lex_lt, spec_decimal, str_eq, str_lt, u64_to_decimal};

verus! {

/// The model of a JSON value.
pub enum Json {
    Null,
    Bool(bool),
    Number(Seq<char>),
    Str(Seq<char>),
    Array(Seq<Json>),
    Object(Seq<(Seq<char>, Json)>),
}

/// The value of the first member named `key`, if any.
pub open spec fn member_of(members: Seq<(Seq<char>, Json)>, key: Seq<char>) -> Option<Json>
    decreases members.len(),
{
    if members.len() == 0 {
        None
    } else if members[0].0 == key {
        Some(members[0].1)
    } else {
        member_of(members.drop_first(), key)
    }
}

/// Index of the first member named `key`, or `-1`.
pub open spec fn member_index(members: Seq<(Seq<char>, Json)>, key: Seq<char>) -> int
    decreases members.len(),
{
    if members.len() == 0 {
        -1
    } else if members[0].0 == key {
        0
    } else {
        let r = member_index(members.drop_first(), key);
        if r < 0 { -1 } else { r + 1 }
    }
}

/// `member_index` finds the first member with the key, and `member_of`
/// gives its value.
pub proof fn lemma_member_index(members: Seq<(Seq<char>, Json)>, key: Seq<char>)
    ensures
        -1 <= member_index(members, key) < members.len(),
        member_index(members, key) >= 0 ==> members[member_index(members, key)].0 == key,
        forall|j: int| 0 <= j < member_index(members, key) ==> members[j].0 != key,
        member_index(members, key) < 0 ==> forall|j: int| 0 <= j < members.len() ==> members[j].0 != key,
        member_index(members, key) >= 0 ==> member_of(members, key) == Some(members[member_index(members, key)].1),
        member_index(members, key) < 0 ==> member_of(members, key) is None,
    decreases members.len(),
{
    if members.len() > 0 && members[0].0 != key {
        lemma_member_index(members.drop_first(), key);
        let r = member_index(members.drop_first(), key);
        assert forall|j: int| 0 <= j < member_index(members, key) implies members[j].0 != key by {
            if j > 0 {
                assert(members[j] == members.drop_first()[j - 1]);
            }
        }
        if r < 0 {
            assert forall|j: int| 0 <= j < members.len() implies members[j].0 != key by {
                if j > 0 {
                    assert(members[j] == members.drop_first()[j - 1]);
                }
            }
        }
    }
}

impl Json {
    /// The member `key` of an object; `None` for other values.
    pub open spec fn get(self, key: Seq<char>) -> Option<Json> {
        match self {
            Json::Object(m) => member_of(m, key),
            _ => None,
        }
    }

    /// The characters of a string; `None` for other values.
    pub open spec fn as_str(self) -> Option<Seq<char>> {
        match self {
            Json::Str(s) => Some(s),
            _ => None,
        }
    }

    /// The string member `key` of an object.
    pub open spec fn get_str(self, key: Seq<char>) -> Option<Seq<char>> {
        match self.get(key) {
            Some(v) => v.as_str(),
            None => None,
        }
    }

    /// The compact JSON text of the value, as `serde_json` writes it for
    /// a value whose members are in this order.
    pub open spec fn text(self) -> Seq<char>
        decreases self,
    {
        match self {
            Json::Null => "null"@,
            Json::Bool(b) => if b { "true"@ } else { "false"@ },
            Json::Number(n) => n,
            Json::Str(s) => quoted(s),
            Json::Array(items) => seq!['['] + items_text(items) + seq![']'],
            Json::Object(members) => seq!['{'] + members_text(members) + seq!['}'],
        }
    }
}

/// The texts of `items`, separated by commas.
pub open spec fn items_text(items: Seq<Json>) -> Seq<char>
    decreases items,
{
    if items.len() == 0 {
        Seq::empty()
    } else if items.len() == 1 {
        items[0].text()
    } else {
        items_text(items.subrange(0, items.len() - 1)) + seq![','] + items[items.len() - 1].text()
    }
}

/// The text of one member: its quoted key, a colon, its value.
pub open spec fn member_text(m: (Seq<char>, Json)) -> Seq<char>
    decreases m,
{
    quoted(m.0) + seq![':'] + m.1.text()
}

/// The texts of `members`, separated by commas.
pub open spec fn members_text(members: Seq<(Seq<char>, Json)>) -> Seq<char>
    decreases members,
{
    if members.len() == 0 {
        Seq::empty()
    } else if members.len() == 1 {
        member_text(members[0])
    } else {
        members_text(members.subrange(0, members.len() - 1)) + seq![','] + member_text(
            members[members.len() - 1],
        )
    }
}

/// The positions of members kept in key order: `acc` with position `i`
/// added as a map keyed by text adds it. A key already present takes the
/// new position in place; a new key goes before the first greater key.
pub open spec fn insert_index(keys: Seq<Seq<char>>, acc: Seq<int>, i: int) -> Seq<int>
    decreases acc.len(),
{
    if acc.len() == 0 {
        seq![i]
    } else if keys[acc[0]] == keys[i] {
        seq![i] + acc.drop_first()
    } else if lex_lt(keys[i], keys[acc[0]]) {
        seq![i] + acc
    } else {
        seq![acc[0]] + insert_index(keys, acc.drop_first(), i)
    }
}

/// The positions of the first `n` members as a map keyed by text holds
/// them after inserting them in turn (a `BTreeMap`, as `serde_json` keeps
/// an object's members): one per key, the last member with that key, in
/// increasing key order.
pub open spec fn key_order(keys: Seq<Seq<char>>, n: nat) -> Seq<int>
    decreases n,
{
    if n == 0 {
        Seq::empty()
    } else {
        insert_index(keys, key_order(keys, (n - 1) as nat), n - 1)
    }
}

/// The keys of an object's members.
pub open spec fn member_keys(members: Seq<(Seq<char>, Json)>) -> Seq<Seq<char>> {
    members.map_values(|m: (Seq<char>, Json)| m.0)
}

impl Json {
    /// The compact JSON text `serde_json` writes for the value when its
    /// objects are key-ordered maps: members in increasing key order, a
    /// repeated key written once with its last value.
    pub open spec fn sorted_text(self) -> Seq<char>
        decreases self, 0nat,
    {
        match self {
            Json::Null => "null"@,
            Json::Bool(b) => if b {
                "true"@
            } else {
                "false"@
            },
            Json::Number(n) => n,
            Json::Str(s) => quoted(s),
            Json::Array(items) => seq!['['] + items_sorted_text(items) + seq![']'],
            Json::Object(members) => seq!['{'] + members_sorted_text(
                members,
                key_order(member_keys(members), members.len()),
            ) + seq!['}'],
        }
    }
}

/// The sorted texts of `items`, separated by commas.
pub open spec fn items_sorted_text(items: Seq<Json>) -> Seq<char>
    decreases items, 0nat,
{
    if items.len() == 0 {
        Seq::empty()
    } else if items.len() == 1 {
        items[0].sorted_text()
    } else {
        items_sorted_text(items.subrange(0, items.len() - 1)) + seq![','] + items[items.len()
            - 1].sorted_text()
    }
}

/// The members at positions `idx`, each as its quoted key, a colon and its
/// sorted text, separated by commas.
pub open spec fn members_sorted_text(members: Seq<(Seq<char>, Json)>, idx: Seq<int>) -> Seq<char>
    decreases members, idx.len(),
{
    if idx.len() == 0 {
        Seq::empty()
    } else {
        let i = idx[idx.len() - 1];
        let t = if 0 <= i < members.len() {
            proof {
                assert(decreases_to!(members => members[i]));
            }
            quoted(members[i].0) + seq![':'] + members[i].1.sorted_text()
        } else {
            Seq::empty()
        };
        if idx.len() == 1 {
            t
        } else {
            members_sorted_text(members, idx.subrange(0, idx.len() - 1)) + seq![','] + t
        }
    }
}

/// Lower-case hexadecimal digit for `d < 16`.
pub open spec fn hex_digit(d: nat) -> char {
    if d < 10 {
        ((d + 48) as u32) as char
    } else {
        ((d + 87) as u32) as char
    }
}

/// How one character is written inside a JSON string.
pub open spec fn escape_char(c: char) -> Seq<char> {
    if c == '"' {
        seq!['\\', '"']
    } else if c == '\\' {
        seq!['\\', '\\']
    } else if c == '\n' {
        seq!['\\', 'n']
    } else if c == '\r' {
        seq!['\\', 'r']
    } else if c == '\t' {
        seq!['\\', 't']
    } else if c == '\x08' {
        seq!['\\', 'b']
    } else if c == '\x0c' {
        seq!['\\', 'f']
    } else if (c as u32) < 0x20 {
        seq![
            '\\',
            'u',
            '0',
            '0',
            hex_digit((c as u32 / 16) as nat),
            hex_digit((c as u32 % 16) as nat),
        ]
    } else {
        seq![c]
    }
}

/// The escaped characters of a string.
pub open spec fn escaped(s: Seq<char>) -> Seq<char>
    decreases s.len(),
{
    if s.len() == 0 {
        Seq::empty()
    } else {
        escaped(s.drop_last()) + escape_char(s.last())
    }
}

/// A JSON string literal.
pub open spec fn quoted(s: Seq<char>) -> Seq<char> {
    seq!['"'] + escaped(s) + seq!['"']
}

/// A JSON value.
#[derive(Debug, PartialEq)]
pub enum JsonValue {
    Null,
    Bool(bool),
    /// A number, as its JSON text (for example `42` or `-1.5e3`).
    Number(String),
    String(String),
    Array(Vec<JsonValue>),
    /// Members in order.
    Object(Vec<(String, JsonValue)>),
}

/// The model of a value.
pub open spec fn model(v: JsonValue) -> Json
    decreases v, 1nat, 0nat,
{
    match v {
        JsonValue::Null => Json::Null,
        JsonValue::Bool(b) => Json::Bool(b),
        JsonValue::Number(n) => Json::Number(n@),
        JsonValue::String(s) => Json::Str(s@),
        JsonValue::Array(a) => Json::Array(items_model(v, a@.len())),
        JsonValue::Object(m) => Json::Object(members_model(v, m@.len())),
    }
}

/// The models of the first `n` elements of an array.
pub open spec fn items_model(v: JsonValue, n: nat) -> Seq<Json>
    decreases v, 0nat, n,
{
    match v {
        JsonValue::Array(a) => {
            if n == 0 || n > a@.len() {
                Seq::empty()
            } else {
                items_model(v, (n - 1) as nat).push(model(a@[n - 1]))
            }
        },
        _ => Seq::empty(),
    }
}

/// The models of the first `n` members of an object.
pub open spec fn members_model(v: JsonValue, n: nat) -> Seq<(Seq<char>, Json)>
    decreases v, 0nat, n,
{
    match v {
        JsonValue::Object(m) => {
            if n == 0 || n > m@.len() {
                Seq::empty()
            } else {
                members_model(v, (n - 1) as nat).push((m@[n - 1].0@, model(m@[n - 1].1)))
            }
        },
        _ => Seq::empty(),
    }
}

impl View for JsonValue {
    type V = Json;

    open spec fn view(&self) -> Json {
        model(*self)
    }
}

/// The model of an array is the models of its elements.
pub proof fn lemma_items_model(v: JsonValue, n: nat)
    requires
        v is Array,
        n <= v->Array_0@.len(),
    ensures
        items_model(v, n).len() == n,
        forall|i: int| 0 <= i < n ==> #[trigger] items_model(v, n)[i] == model(v->Array_0@[i]),
    decreases n,
{
    if n > 0 {
        lemma_items_model(v, (n - 1) as nat);
    }
}

/// The model of an object is the models of its members.
pub proof fn lemma_members_model(v: JsonValue, n: nat)
    requires
        v is Object,
        n <= v->Object_0@.len(),
    ensures
        members_model(v, n).len() == n,
        forall|i: int|
            0 <= i < n ==> #[trigger] members_model(v, n)[i] == (
                v->Object_0@[i].0@,
                model(v->Object_0@[i].1),
            ),
    decreases n,
{
    if n > 0 {
        lemma_members_model(v, (n - 1) as nat);
    }
}

/// The model of an array value, element by element.
pub proof fn lemma_array_view(v: JsonValue)
    requires
        v is Array,
    ensures
        v@ is Array,
        v@->Array_0.len() == v->Array_0@.len(),
        forall|i: int|
            0 <= i < v->Array_0@.len() ==> #[trigger] v@->Array_0[i] == v->Array_0@[i]@,
{
    lemma_items_model(v, v->Array_0@.len());
}

/// The model of an object value, member by member.
pub proof fn lemma_object_view(v: JsonValue)
    requires
        v is Object,
    ensures
        v@ is Object,
        v@->Object_0.len() == v->Object_0@.len(),
        forall|i: int|
            0 <= i < v->Object_0@.len() ==> #[trigger] v@->Object_0[i] == (
                v->Object_0@[i].0@,
                v->Object_0@[i].1@,
            ),
{
    lemma_members_model(v, v->Object_0@.len());
}

fn hex_char(d: u32) -> (c: char)
    requires
        d < 16,
    ensures
        c == hex_digit(d as nat),
{
    if d == 0 { '0' } else if d == 1 { '1' } else if d == 2 { '2' } else if d == 3 { '3' }
    else if d == 4 { '4' } else if d == 5 { '5' } else if d == 6 { '6' } else if d == 7 { '7' }
    else if d == 8 { '8' } else if d == 9 { '9' } else if d == 10 { 'a' } else if d == 11 { 'b' }
    else if d == 12 { 'c' } else if d == 13 { 'd' } else if d == 14 { 'e' } else { 'f' }
}

fn push_escaped_char(out: &mut String, c: char)
    ensures
        final(out)@ == old(out)@ + escape_char(c),
{
    let ghost before = out@;
    if c == '"' {
        out.push('\\');
        out.push('"');
    } else if c == '\\' {
        out.push('\\');
        out.push('\\');
    } else if c == '\n' {
        out.push('\\');
        out.push('n');
    } else if c == '\r' {
        out.push('\\');
        out.push('r');
    } else if c == '\t' {
        out.push('\\');
        out.push('t');
    } else if c == '\x08' {
        out.push('\\');
        out.push('b');
    } else if c == '\x0c' {
        out.push('\\');
        out.push('f');
    } else if (c as u32) < 0x20 {
        let code = c as u32;
        out.push('\\');
        out.push('u');
        out.push('0');
        out.push('0');
        out.push(hex_char(code / 16));
        out.push(hex_char(code % 16));
    } else {
        out.push(c);
    }
    assert(out@ =~= before + escape_char(c));
}

/// Appends `s` as a JSON string literal.
pub fn push_quoted(out: &mut String, s: &str)
    ensures
        final(out)@ == old(out)@ + quoted(s@),
{
    let ghost before = out@;
    out.push('"');
    let n = s.unicode_len();
    let mut i: usize = 0;
    assert(s@.take(0) =~= Seq::<char>::empty());
    while i < n
        invariant
            n == s@.len(),
            i <= n,
            out@ == before + seq!['"'] + escaped(s@.take(i as int)),
        decreases n - i,
    {
        let c = s.get_char(i);
        push_escaped_char(out, c);
        assert(s@.take(i + 1).drop_last() =~= s@.take(i as int));
        assert(out@ =~= before + seq!['"'] + escaped(s@.take(i + 1)));
        i = i + 1;
    }
    assert(s@.take(n as int) =~= s@);
    out.push('"');
    assert(out@ =~= before + quoted(s@));
}

impl JsonValue {
    /// Appends the compact JSON text of the value.
    pub fn write_text(&self, out: &mut String)
        ensures
            final(out)@ == old(out)@ + self@.text(),
        decreases self, 1nat,
    {
        match self {
            JsonValue::Null => {
                out.append("null");
            },
            JsonValue::Bool(b) => {
                if *b {
                    out.append("true");
                } else {
                    out.append("false");
                }
            },
            JsonValue::Number(n) => {
                out.append(n.as_str());
            },
            JsonValue::String(s) => {
                push_quoted(out, s.as_str());
            },
            JsonValue::Array(a) => {
                self.write_array(a, out);
            },
            JsonValue::Object(m) => {
                self.write_object(m, out);
            },
        }
    }

    fn write_array(&self, a: &Vec<JsonValue>, out: &mut String)
        requires
            *self == JsonValue::Array(*a),
        ensures
            final(out)@ == old(out)@ + self@.text(),
        decreases self, 0nat,
    {
        let ghost before = out@;
        proof {
            lemma_array_view(*self);
        }
        let ghost items = self@->Array_0;
        out.push('[');
        let mut i: usize = 0;
        assert(items.subrange(0, 0) =~= Seq::<Json>::empty());
        while i < a.len()
            invariant
                i <= a@.len(),
                *self == JsonValue::Array(*a),
                items.len() == a@.len(),
                forall|k: int| 0 <= k < a@.len() ==> #[trigger] items[k] == a@[k]@,
                out@ == before + seq!['['] + items_text(items.subrange(0, i as int)),
            decreases a@.len() - i,
        {
            let ghost mid = out@;
            if i > 0 {
                out.push(',');
            }
            proof {
                assert(decreases_to!(*self => (*self)->Array_0));
                assert(decreases_to!(*a => a@));
                assert(decreases_to!(a@ => a@[i as int]));
            }
            a[i].write_text(out);
            proof {
                let next = items.subrange(0, i + 1);
                assert(next.subrange(0, next.len() - 1) =~= items.subrange(0, i as int));
                assert(next[next.len() - 1] == a@[i as int]@);
                if i == 0 {
                    assert(out@ =~= mid + next[0].text());
                } else {
                    assert(out@ =~= mid + seq![','] + next[next.len() - 1].text());
                }
                assert(out@ =~= before + seq!['['] + items_text(next));
            }
            i = i + 1;
        }
        assert(items.subrange(0, a@.len() as int) =~= items);
        out.push(']');
        assert(out@ =~= before + self@.text());
    }

    fn write_object(&self, m: &Vec<(String, JsonValue)>, out: &mut String)
        requires
            *self == JsonValue::Object(*m),
        ensures
            final(out)@ == old(out)@ + self@.text(),
        decreases self, 0nat,
    {
        let ghost before = out@;
        proof {
            lemma_object_view(*self);
        }
        let ghost members = self@->Object_0;
        out.push('{');
        let mut i: usize = 0;
        assert(members.subrange(0, 0) =~= Seq::<(Seq<char>, Json)>::empty());
        while i < m.len()
            invariant
                i <= m@.len(),
                *self == JsonValue::Object(*m),
                members.len() == m@.len(),
                forall|k: int| 0 <= k < m@.len() ==> #[trigger] members[k] == (m@[k].0@, m@[k].1@),
                out@ == before + seq!['{'] + members_text(members.subrange(0, i as int)),
            decreases m@.len() - i,
        {
            let ghost mid = out@;
            if i > 0 {
                out.push(',');
            }
            push_quoted(out, m[i].0.as_str());
            out.push(':');
            proof {
                assert(decreases_to!(*self => (*self)->Object_0));
                assert(decreases_to!(*m => m@));
                assert(decreases_to!(m@ => m@[i as int]));
                assert(decreases_to!(m@[i as int] => m@[i as int].1));
            }
            m[i].1.write_text(out);
            proof {
                let next = members.subrange(0, i + 1);
                let last = next[next.len() - 1];
                assert(next.subrange(0, next.len() - 1) =~= members.subrange(0, i as int));
                assert(last == (m@[i as int].0@, m@[i as int].1@));
                assert(member_text(last) == quoted(last.0) + seq![':'] + last.1.text());
                if i == 0 {
                    assert(out@ =~= mid + member_text(last));
                } else {
                    assert(out@ =~= mid + seq![','] + member_text(last));
                }
                assert(out@ =~= before + seq!['{'] + members_text(next));
            }
            i = i + 1;
        }
        assert(members.subrange(0, m@.len() as int) =~= members);
        out.push('}');
        assert(out@ =~= before + self@.text());
    }

    /// The compact JSON text of the value.
    pub fn to_text(&self) -> (r: String)
        ensures
            r@ == self@.text(),
    {
        let mut out = String::new();
        self.write_text(&mut out);
        assert(out@ =~= self@.text());
        out
    }
}

/// The positions of `m` as `key_order` gives them.
fn key_order_of(m: &Vec<(String, JsonValue)>, Ghost(keys): Ghost<Seq<Seq<char>>>) -> (r: Vec<usize>)
    requires
        keys.len() == m@.len(),
        forall|k: int| 0 <= k < m@.len() ==> #[trigger] keys[k] == m@[k].0@,
    ensures
        r@.map_values(|x: usize| x as int) == key_order(keys, m@.len() as nat),
        forall|q: int| 0 <= q < r@.len() ==> #[trigger] r@[q] < m@.len(),
{
    let mut acc: Vec<usize> = Vec::new();
    let mut i: usize = 0;
    while i < m.len()
        invariant
            i <= m@.len(),
            keys.len() == m@.len(),
            forall|k: int| 0 <= k < m@.len() ==> #[trigger] keys[k] == m@[k].0@,
            acc@.map_values(|x: usize| x as int) == key_order(keys, i as nat),
            forall|q: int| 0 <= q < acc@.len() ==> #[trigger] acc@[q] < i,
        decreases m@.len() - i,
    {
        let ghost a = acc@.map_values(|x: usize| x as int);
        let ghost target = insert_index(keys, a, i as int);
        let mut p: usize = 0;
        assert(a.skip(0) =~= a);
        assert(a.take(0) + insert_index(keys, a.skip(0), i as int) =~= target);
        let mut done = false;
        while p < acc.len() && !done
            invariant
                p <= acc@.len(),
                i < m@.len(),
                keys.len() == m@.len(),
                forall|k: int| 0 <= k < m@.len() ==> #[trigger] keys[k] == m@[k].0@,
                forall|q: int| 0 <= q < acc@.len() ==> #[trigger] acc@[q] <= i,
                !done ==> a == acc@.map_values(|x: usize| x as int),
                !done ==> target == a.take(p as int) + insert_index(keys, a.skip(p as int), i as int),
                done ==> acc@.map_values(|x: usize| x as int) == target,
            decreases if done {
                0int
            } else {
                acc@.len() - p + 1
            },
        {
            let j = acc[p];
            let ghost rest = a.skip(p as int);
            assert(rest[0] == j as int);
            assert(rest.drop_first() =~= a.skip(p + 1));
            if str_eq(m[j].0.as_str(), m[i].0.as_str()) {
                acc.set(p, i);
                assert(acc@.map_values(|x: usize| x as int) =~= a.take(p as int) + (seq![i as int]
                    + rest.drop_first()));
                done = true;
            } else if str_lt(m[i].0.as_str(), m[j].0.as_str()) {
                acc.insert(p, i);
                assert(acc@.map_values(|x: usize| x as int) =~= a.take(p as int) + (seq![i as int]
                    + rest));
                done = true;
            } else {
                assert(a.take(p + 1) =~= a.take(p as int).push(j as int));
                assert(a.take(p as int) + (seq![j as int] + insert_index(keys, rest.drop_first(), i as int))
                    =~= a.take(p + 1) + insert_index(keys, a.skip(p + 1), i as int));
                p = p + 1;
            }
        }
        if !done {
            assert(a.skip(p as int).len() == 0);
            assert(a.take(p as int) =~= a);
            acc.push(i);
            assert(acc@.map_values(|x: usize| x as int) =~= a + seq![i as int]);
        }
        i = i + 1;
    }
    acc
}

impl JsonValue {
    /// Appends the text `serde_json` writes for the value when its objects
    /// are key-ordered maps.
    pub fn write_sorted_text(&self, out: &mut String)
        ensures
            final(out)@ == old(out)@ + self@.sorted_text(),
        decreases self, 1nat,
    {
        match self {
            JsonValue::Null => {
                out.append("null");
            },
            JsonValue::Bool(b) => {
                if *b {
                    out.append("true");
                } else {
                    out.append("false");
                }
            },
            JsonValue::Number(n) => {
                out.append(n.as_str());
            },
            JsonValue::String(s) => {
                push_quoted(out, s.as_str());
            },
            JsonValue::Array(a) => {
                self.write_sorted_array(a, out);
            },
            JsonValue::Object(m) => {
                self.write_sorted_object(m, out);
            },
        }
    }

    fn write_sorted_array(&self, a: &Vec<JsonValue>, out: &mut String)
        requires
            *self == JsonValue::Array(*a),
        ensures
            final(out)@ == old(out)@ + self@.sorted_text(),
        decreases self, 0nat,
    {
        let ghost before = out@;
        proof {
            lemma_array_view(*self);
        }
        let ghost items = self@->Array_0;
        out.push('[');
        let mut i: usize = 0;
        assert(items.subrange(0, 0) =~= Seq::<Json>::empty());
        while i < a.len()
            invariant
                i <= a@.len(),
                *self == JsonValue::Array(*a),
                items.len() == a@.len(),
                forall|k: int| 0 <= k < a@.len() ==> #[trigger] items[k] == a@[k]@,
                out@ == before + seq!['['] + items_sorted_text(items.subrange(0, i as int)),
            decreases a@.len() - i,
        {
            let ghost mid = out@;
            if i > 0 {
                out.push(',');
            }
            proof {
                assert(decreases_to!(*self => (*self)->Array_0));
                assert(decreases_to!(*a => a@));
                assert(decreases_to!(a@ => a@[i as int]));
            }
            a[i].write_sorted_text(out);
            proof {
                let next = items.subrange(0, i + 1);
                assert(next.subrange(0, next.len() - 1) =~= items.subrange(0, i as int));
                assert(next[next.len() - 1] == a@[i as int]@);
                if i == 0 {
                    assert(out@ =~= mid + next[0].sorted_text());
                } else {
                    assert(out@ =~= mid + seq![','] + next[next.len() - 1].sorted_text());
                }
                assert(out@ =~= before + seq!['['] + items_sorted_text(next));
            }
            i = i + 1;
        }
        assert(items.subrange(0, a@.len() as int) =~= items);
        out.push(']');
        assert(out@ =~= before + self@.sorted_text());
    }

    fn write_sorted_object(&self, m: &Vec<(String, JsonValue)>, out: &mut String)
        requires
            *self == JsonValue::Object(*m),
        ensures
            final(out)@ == old(out)@ + self@.sorted_text(),
        decreases self, 0nat,
    {
        let ghost before = out@;
        proof {
            lemma_object_view(*self);
        }
        let ghost members = self@->Object_0;
        let ghost keys = member_keys(members);
        let order = key_order_of(m, Ghost(keys));
        let ghost idx = order@.map_values(|x: usize| x as int);
        out.push('{');
        let mut j: usize = 0;
        assert(idx.subrange(0, 0) =~= Seq::<int>::empty());
        while j < order.len()
            invariant
                j <= order@.len(),
                *self == JsonValue::Object(*m),
                members.len() == m@.len(),
                forall|k: int| 0 <= k < m@.len() ==> #[trigger] members[k] == (m@[k].0@, m@[k].1@),
                idx == order@.map_values(|x: usize| x as int),
                forall|q: int| 0 <= q < order@.len() ==> #[trigger] order@[q] < m@.len(),
                out@ == before + seq!['{'] + members_sorted_text(members, idx.subrange(0, j as int)),
            decreases order@.len() - j,
        {
            let ghost mid = out@;
            if j > 0 {
                out.push(',');
            }
            let i = order[j];
            push_quoted(out, m[i].0.as_str());
            out.push(':');
            proof {
                assert(decreases_to!(*self => (*self)->Object_0));
                assert(decreases_to!(*m => m@));
                assert(decreases_to!(m@ => m@[i as int]));
                assert(decreases_to!(m@[i as int] => m@[i as int].1));
            }
            m[i].1.write_sorted_text(out);
            proof {
                let next = idx.subrange(0, j + 1);
                assert(next.subrange(0, next.len() - 1) =~= idx.subrange(0, j as int));
                assert(next[next.len() - 1] == i as int);
                let t = quoted(members[i as int].0) + seq![':'] + members[i as int].1.sorted_text();
                assert(members[i as int] == (m@[i as int].0@, m@[i as int].1@));
                if j == 0 {
                    assert(out@ =~= mid + t);
                } else {
                    assert(out@ =~= mid + seq![','] + t);
                }
                assert(out@ =~= before + seq!['{'] + members_sorted_text(members, next));
            }
            j = j + 1;
        }
        assert(idx.subrange(0, order@.len() as int) =~= idx);
        out.push('}');
        assert(out@ =~= before + self@.sorted_text());
    }

    /// The text `serde_json` writes for the value when its objects are
    /// key-ordered maps.
    pub fn to_sorted_text(&self) -> (r: String)
        ensures
            r@ == self@.sorted_text(),
    {
        let mut out = String::new();
        self.write_sorted_text(&mut out);
        assert(out@ =~= self@.sorted_text());
        out
    }
}

/// If no member before `i` is named `key` and member `i` is, `member_of`
/// gives member `i`; if none is named `key`, it gives nothing.
pub proof fn lemma_member_of_at(members: Seq<(Seq<char>, Json)>, key: Seq<char>, i: int)
    requires
        0 <= i <= members.len(),
        forall|j: int| 0 <= j < i ==> members[j].0 != key,
    ensures
        i < members.len() && members[i].0 == key ==> member_of(members, key) == Some(members[i].1)
            && member_index(members, key) == i,
        i == members.len() ==> member_of(members, key) is None && member_index(members, key) == -1,
    decreases i,
{
    if i > 0 {
        assert forall|j: int| 0 <= j < i - 1 implies members.drop_first()[j].0 != key by {
            assert(members.drop_first()[j] == members[j + 1]);
        }
        lemma_member_of_at(members.drop_first(), key, i - 1);
    }
}

impl JsonValue {
    pub fn is_object(&self) -> (r: bool)
        ensures
            r == self@ is Object,
            r == self is Object,
    {
        match self {
            JsonValue::Object(_) => true,
            _ => false,
        }
    }

    /// The characters of a JSON string.
    pub fn as_str(&self) -> (r: Option<&String>)
        ensures
            match r {
                Some(s) => self@ == Json::Str(s@),
                None => !(self@ is Str),
            },
    {
        match self {
            JsonValue::String(s) => Some(s),
            _ => None,
        }
    }

    /// The elements of a JSON array.
    pub fn as_array(&self) -> (r: Option<&Vec<JsonValue>>)
        ensures
            match r {
                Some(a) => *self == JsonValue::Array(*a) && self@ is Array
                    && self@->Array_0.len() == a@.len()
                    && forall|i: int| 0 <= i < a@.len() ==> #[trigger] self@->Array_0[i] == a@[i]@,
                None => !(self@ is Array),
            },
    {
        match self {
            JsonValue::Array(a) => {
                proof {
                    lemma_array_view(*self);
                }
                Some(a)
            },
            _ => None,
        }
    }

    /// The members of a JSON object.
    pub fn as_object(&self) -> (r: Option<&Vec<(String, JsonValue)>>)
        ensures
            match r {
                Some(m) => *self == JsonValue::Object(*m) && self@ is Object
                    && self@->Object_0.len() == m@.len()
                    && forall|i: int|
                        0 <= i < m@.len() ==> #[trigger] self@->Object_0[i] == (m@[i].0@, m@[i].1@),
                None => !(self@ is Object),
            },
    {
        match self {
            JsonValue::Object(m) => {
                proof {
                    lemma_object_view(*self);
                }
                Some(m)
            },
            _ => None,
        }
    }

    /// Position of the first member named `key` of an object.
    pub fn member_position(&self, key: &str) -> (r: Option<usize>)
        ensures
            match r {
                Some(i) => self@ is Object && member_index(self@->Object_0, key@) == i
                    && i < self@->Object_0.len() && self@->Object_0[i as int].0 == key@
                    && self@.get(key@) == Some(self@->Object_0[i as int].1),
                None => self@.get(key@) is None,
            },
    {
        match self {
            JsonValue::Object(m) => {
                proof {
                    lemma_object_view(*self);
                }
                let ghost ms = self@->Object_0;
                let mut i: usize = 0;
                while i < m.len()
                    invariant
                        i <= m@.len(),
                        *self == JsonValue::Object(*m),
                        ms == self@->Object_0,
                        ms.len() == m@.len(),
                        forall|k: int| 0 <= k < m@.len() ==> #[trigger] ms[k] == (m@[k].0@, m@[k].1@),
                        forall|j: int| 0 <= j < i ==> ms[j].0 != key@,
                    decreases m@.len() - i,
                {
                    if str_eq(m[i].0.as_str(), key) {
                        proof {
                            lemma_member_of_at(ms, key@, i as int);
                        }
                        return Some(i);
                    }
                    i = i + 1;
                }
                proof {
                    lemma_member_of_at(ms, key@, i as int);
                }
                None
            },
            _ => None,
        }
    }

    /// The member `key` of an object (the first one with that key).
    pub fn get(&self, key: &str) -> (r: Option<&JsonValue>)
        ensures
            match r {
                Some(v) => self@.get(key@) == Some(v@),
                None => self@.get(key@) is None,
            },
    {
        match self.member_position(key) {
            Some(i) => {
                match self {
                    JsonValue::Object(m) => {
                        proof {
                            lemma_object_view(*self);
                        }
                        Some(&m[i].1)
                    },
                    _ => None,
                }
            },
            None => None,
        }
    }

    /// The string member `key` of an object.
    pub fn get_str(&self, key: &str) -> (r: Option<&String>)
        ensures
            match r {
                Some(s) => self@.get_str(key@) == Some(s@),
                None => self@.get_str(key@) is None,
            },
    {
        match self.get(key) {
            Some(v) => v.as_str(),
            None => None,
        }
    }

    /// A JSON string.
    pub fn from_str_value(s: &str) -> (r: JsonValue)
        ensures
            r@ == Json::Str(s@),
    {
        JsonValue::String(String::from_str(s))
    }

    /// A JSON number holding `n`.
    pub fn from_u64(n: u64) -> (r: JsonValue)
        ensures
            r@ == Json::Number(spec_decimal(n as nat)),
    {
        JsonValue::Number(u64_to_decimal(n))
    }

    /// A value with the same model.
    pub fn duplicate(&self) -> (r: JsonValue)
        ensures
            r@ == self@,
        decreases self,
    {
        match self {
            JsonValue::Null => JsonValue::Null,
            JsonValue::Bool(b) => JsonValue::Bool(*b),
            JsonValue::Number(n) => JsonValue::Number(n.clone()),
            JsonValue::String(s) => JsonValue::String(s.clone()),
            JsonValue::Array(a) => {
                proof {
                    lemma_array_view(*self);
                }
                let mut out: Vec<JsonValue> = Vec::new();
                let mut i: usize = 0;
                while i < a.len()
                    invariant
                        i <= a@.len(),
                        *self == JsonValue::Array(*a),
                        out@.len() == i,
                        forall|k: int| 0 <= k < i ==> #[trigger] out@[k]@ == a@[k]@,
                    decreases a@.len() - i,
                {
                    proof {
                        assert(decreases_to!(*self => (*self)->Array_0));
                        assert(decreases_to!(*a => a@));
                        assert(decreases_to!(a@ => a@[i as int]));
                    }
                    let d = a[i].duplicate();
                    out.push(d);
                    i = i + 1;
                }
                let r = JsonValue::Array(out);
                proof {
                    lemma_array_view(r);
                    assert(r@->Array_0 =~= self@->Array_0);
                }
                r
            },
            JsonValue::Object(m) => {
                proof {
                    lemma_object_view(*self);
                }
                let mut out: Vec<(String, JsonValue)> = Vec::new();
                let mut i: usize = 0;
                while i < m.len()
                    invariant
                        i <= m@.len(),
                        *self == JsonValue::Object(*m),
                        out@.len() == i,
                        forall|k: int|
                            0 <= k < i ==> #[trigger] out@[k].0@ == m@[k].0@ && out@[k].1@ == m@[k].1@,
                    decreases m@.len() - i,
                {
                    proof {
                        assert(decreases_to!(*self => (*self)->Object_0));
                        assert(decreases_to!(*m => m@));
                        assert(decreases_to!(m@ => m@[i as int]));
                        assert(decreases_to!(m@[i as int] => m@[i as int].1));
                    }
                    let d = m[i].1.duplicate();
                    out.push((m[i].0.clone(), d));
                    i = i + 1;
                }
                let r = JsonValue::Object(out);
                proof {
                    lemma_object_view(r);
                    assert(r@->Object_0 =~= self@->Object_0);
                }
                r
            },
        }
    }

    /// Removes member `i` of an object and hands it back.
    pub fn remove_member_at(&mut self, i: usize) -> (r: (String, JsonValue))
        requires
            old(self)@ is Object,
            i < old(self)@->Object_0.len(),
        ensures
            final(self)@ == Json::Object(old(self)@->Object_0.remove(i as int)),
            (r.0@, r.1@) == old(self)@->Object_0[i as int],
    {
        proof {
            lemma_object_view(*self);
        }
        let ghost before = self@->Object_0;
        let mut taken = JsonValue::Null;
        std::mem::swap(self, &mut taken);
        match taken {
            JsonValue::Object(mut m) => {
                let r = m.remove(i);
                let v = JsonValue::Object(m);
                proof {
                    lemma_object_view(v);
                    assert(v@->Object_0 =~= before.remove(i as int));
                }
                *self = v;
                r
            },
            _ => {
                (String::new(), JsonValue::Null)
            },
        }
    }

    /// Inserts a member at position `i` of an object.
    pub fn insert_member_at(&mut self, i: usize, key: String, value: JsonValue)
        requires
            old(self)@ is Object,
            i <= old(self)@->Object_0.len(),
        ensures
            final(self)@ == Json::Object(old(self)@->Object_0.insert(i as int, (key@, value@))),
    {
        proof {
            lemma_object_view(*self);
        }
        let ghost before = self@->Object_0;
        let ghost kv = (key@, value@);
        let mut taken = JsonValue::Null;
        std::mem::swap(self, &mut taken);
        match taken {
            JsonValue::Object(mut m) => {
                m.insert(i, (key, value));
                let v = JsonValue::Object(m);
                proof {
                    lemma_object_view(v);
                    assert(v@->Object_0 =~= before.insert(i as int, kv));
                }
                *self = v;
            },
            _ => {},
        }
    }
}

/// A JSON array of strings.
pub open spec fn strings_json(v: Seq<String>) -> Json {
    Json::Array(v.map_values(|x: String| Json::Str(x@)))
}

/// A JSON string, or `null` for `None`.
pub open spec fn opt_str_json(o: Option<String>) -> Json {
    match o {
        Some(x) => Json::Str(x@),
        None => Json::Null,
    }
}

/// The model of an object built from `members`.
pub open spec fn object_json(members: Seq<(String, JsonValue)>) -> Json {
    Json::Object(members.map_values(|m: (String, JsonValue)| (m.0@, m.1@)))
}

impl JsonValue {
    /// An object with these members, in order.
    pub fn object(members: Vec<(String, JsonValue)>) -> (r: JsonValue)
        ensures
            r@ == object_json(members@),
    {
        let r = JsonValue::Object(members);
        proof {
            lemma_object_view(r);
            assert(r@->Object_0 =~= members@.map_values(|m: (String, JsonValue)| (m.0@, m.1@)));
        }
        r
    }

    /// An array with these elements, in order.
    pub fn array(items: Vec<JsonValue>) -> (r: JsonValue)
        ensures
            r@ == Json::Array(items@.map_values(|x: JsonValue| x@)),
    {
        let r = JsonValue::Array(items);
        proof {
            lemma_array_view(r);
            assert(r@->Array_0 =~= items@.map_values(|x: JsonValue| x@));
        }
        r
    }

    /// An array of the strings of `v`.
    pub fn strings(v: &Vec<String>) -> (r: JsonValue)
        ensures
            r@ == strings_json(v@),
    {
        let mut items: Vec<JsonValue> = Vec::new();
        let mut i: usize = 0;
        while i < v.len()
            invariant
                i <= v@.len(),
                items@.len() == i,
                forall|k: int| 0 <= k < i ==> (#[trigger] items@[k])@ == Json::Str(v@[k]@),
            decreases v@.len() - i,
        {
            items.push(JsonValue::String(v[i].clone()));
            i = i + 1;
        }
        let r = JsonValue::array(items);
        assert(items@.map_values(|x: JsonValue| x@) =~= v@.map_values(|x: String| Json::Str(x@)));
        r
    }

    /// A string, or `null`.
    pub fn opt_string(o: &Option<String>) -> (r: JsonValue)
        ensures
            r@ == opt_str_json(*o),
    {
        match o {
            Some(x) => JsonValue::String(x.clone()),
            None => JsonValue::Null,
        }
    }
}

/// A member `key: value`.
pub fn member(key: &str, value: JsonValue) -> (r: (String, JsonValue))
    ensures
        r.0@ == key@,
        r.1 == value,
{
    (String::from_str(key), value)
}

} // verus!
