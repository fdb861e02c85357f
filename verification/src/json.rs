//! JSON objects of text, as they are written for the settings of a link.
use crate::value_map::{ascending, entries_of, finite_map_has_entries, pairs_of, Pair};
use std::collections::BTreeMap;
use vstd::prelude::*;

verus! {

/// The hexadecimal digit for a number below sixteen.
pub open spec fn hex_digit(d: int) -> char {
    if d < 10 {
        (('0' as u32 + d) as u32) as char
    } else {
        (('a' as u32 + d - 10) as u32) as char
    }
}

/// How a character is written inside a JSON string: quotes, backslashes and control
/// characters are escaped, by their short forms where they have one.
pub open spec fn json_escape(c: char) -> Seq<char> {
    if c == '"' {
        seq!['\\', '"']
    } else if c == '\\' {
        seq!['\\', '\\']
    } else if c == '\u{8}' {
        seq!['\\', 'b']
    } else if c == '\t' {
        seq!['\\', 't']
    } else if c == '\n' {
        seq!['\\', 'n']
    } else if c == '\u{c}' {
        seq!['\\', 'f']
    } else if c == '\r' {
        seq!['\\', 'r']
    } else if ' ' > c {
        seq!['\\', 'u', '0', '0', hex_digit(c as int / 16), hex_digit(c as int % 16)]
    } else {
        seq![c]
    }
}

/// How a text is written between the quotes of a JSON string.
pub open spec fn json_escaped(s: Seq<char>) -> Seq<char>
    decreases s.len(),
{
    if s.len() == 0 {
        Seq::empty()
    } else {
        json_escape(s[0]) + json_escaped(s.drop_first())
    }
}

/// A text as a JSON string.
pub open spec fn json_string(s: Seq<char>) -> Seq<char> {
    seq!['"'] + json_escaped(s) + seq!['"']
}

/// A key and its value as a member of a JSON object.
pub open spec fn json_member(pair: Pair) -> Seq<char> {
    json_string(pair.0) + seq![':'] + json_string(pair.1)
}

/// The members of a JSON object, with commas between them.
pub open spec fn json_members(pairs: Seq<Pair>) -> Seq<char>
    decreases pairs.len(),
{
    if pairs.len() == 0 {
        Seq::empty()
    } else if pairs.len() == 1 {
        json_member(pairs[0])
    } else {
        json_member(pairs[0]) + seq![','] + json_members(pairs.drop_first())
    }
}

/// A JSON object with the given members, without spaces.
pub open spec fn json_object_of(pairs: Seq<Pair>) -> Seq<char> {
    seq!['{'] + json_members(pairs) + seq!['}']
}

/// The JSON object whose members are the entries of a map, in the order of their keys.
pub open spec fn json_object_text(values: Map<Seq<char>, Seq<char>>) -> Seq<char> {
    json_object_of(entries_of(values))
}

/// `serde_json::to_string` on a map from strings to strings writes the map as a JSON
/// object without spaces, its members in the order of the map. It escapes quotes,
/// backslashes and control characters, and writes every other character as it is. It can
/// fail only where a key is no string or a value refuses to be written, so on such a map
/// it does not fail.
#[verifier::external_body]
pub(crate) fn json_object(pairs: &Vec<(String, String)>) -> (text: Result<String, String>)
    requires
        ascending(pairs_of(pairs@)),
    ensures
        text is Ok,
        text->Ok_0@ == json_object_of(pairs_of(pairs@)),
{
    let map: BTreeMap<String, String> = pairs.iter().cloned().collect();
    serde_json::to_string(&map).map_err(|e| e.to_string())
}

/// No written character begins another one, so the first of a text can be told.
proof fn first_escape_is_told(c: char, d: char, x: Seq<char>, y: Seq<char>)
    requires
        json_escape(c) + x == json_escape(d) + y,
    ensures
        c == d,
        x == y,
{
    let (l, r) = (json_escape(c) + x, json_escape(d) + y);
    let (p, q) = (json_escape(c), json_escape(d));
    assert(l[0] == p[0] && r[0] == q[0]);
    if p[0] == '\\' {
        assert(l[1] == p[1] && r[1] == q[1]);
        if p[1] == 'u' {
            assert(l[4] == p[4] && r[4] == q[4]);
            assert(l[5] == p[5] && r[5] == q[5]);
        }
    }
    assert(c == d);
    assert(x =~= l.skip(p.len() as int));
    assert(y =~= r.skip(q.len() as int));
}

/// What stands between the quotes of a JSON string is told from what follows them.
proof fn escaped_text_is_told(s: Seq<char>, t: Seq<char>, x: Seq<char>, y: Seq<char>)
    requires
        json_escaped(s) + (seq!['"'] + x) == json_escaped(t) + (seq!['"'] + y),
    ensures
        s == t,
        x == y,
    decreases s.len(),
{
    let (l, r) = (json_escaped(s) + (seq!['"'] + x), json_escaped(t) + (seq!['"'] + y));
    if s.len() > 0 {
        assert(l[0] == json_escape(s[0])[0]);
    }
    if t.len() > 0 {
        assert(r[0] == json_escape(t[0])[0]);
    }
    if s.len() == 0 || t.len() == 0 {
        assert(s.len() == 0 ==> l[0] == '"');
        assert(t.len() == 0 ==> r[0] == '"');
        assert(s =~= t);
        assert(x =~= l.skip(1));
        assert(y =~= r.skip(1));
    } else {
        let u = json_escaped(s.drop_first()) + (seq!['"'] + x);
        let v = json_escaped(t.drop_first()) + (seq!['"'] + y);
        assert(l =~= json_escape(s[0]) + u);
        assert(r =~= json_escape(t[0]) + v);
        first_escape_is_told(s[0], t[0], u, v);
        escaped_text_is_told(s.drop_first(), t.drop_first(), x, y);
        assert(s =~= seq![s[0]] + s.drop_first());
        assert(t =~= seq![t[0]] + t.drop_first());
    }
}

/// A JSON string is told from what follows it.
proof fn string_is_told(s: Seq<char>, t: Seq<char>, x: Seq<char>, y: Seq<char>)
    requires
        json_string(s) + x == json_string(t) + y,
    ensures
        s == t,
        x == y,
{
    let (l, r) = (json_string(s) + x, json_string(t) + y);
    assert(l.skip(1) =~= json_escaped(s) + (seq!['"'] + x));
    assert(r.skip(1) =~= json_escaped(t) + (seq!['"'] + y));
    escaped_text_is_told(s, t, x, y);
}

/// A member of a JSON object is told from what follows it.
proof fn member_is_told(a: Pair, b: Pair, x: Seq<char>, y: Seq<char>)
    requires
        json_member(a) + x == json_member(b) + y,
    ensures
        a == b,
        x == y,
{
    let u = json_string(a.1) + x;
    let v = json_string(b.1) + y;
    assert(json_member(a) + x =~= json_string(a.0) + (seq![':'] + u));
    assert(json_member(b) + y =~= json_string(b.0) + (seq![':'] + v));
    string_is_told(a.0, b.0, seq![':'] + u, seq![':'] + v);
    assert(u =~= (seq![':'] + u).skip(1));
    assert(v =~= (seq![':'] + v).skip(1));
    string_is_told(a.1, b.1, x, y);
}

/// What follows the first member of a JSON object.
spec fn after_member(pairs: Seq<Pair>) -> Seq<char> {
    if pairs.len() <= 1 {
        seq!['}']
    } else {
        seq![','] + json_members(pairs.drop_first()) + seq!['}']
    }
}

proof fn members_are_told(a: Seq<Pair>, b: Seq<Pair>)
    requires
        json_members(a) + seq!['}'] == json_members(b) + seq!['}'],
    ensures
        a == b,
    decreases a.len(),
{
    let (l, r) = (json_members(a) + seq!['}'], json_members(b) + seq!['}']);
    if a.len() > 0 {
        assert(l =~= json_member(a[0]) + after_member(a));
        assert(l[0] == '"');
    } else {
        assert(l[0] == '}');
    }
    if b.len() > 0 {
        assert(r =~= json_member(b[0]) + after_member(b));
        assert(r[0] == '"');
    } else {
        assert(r[0] == '}');
    }
    if a.len() > 0 {
        let (u, v) = (after_member(a), after_member(b));
        member_is_told(a[0], b[0], u, v);
        assert(u[0] == v[0]);
        assert(a.len() == 1 <==> b.len() == 1);
        if a.len() > 1 {
            assert(u.skip(1) =~= json_members(a.drop_first()) + seq!['}']);
            assert(v.skip(1) =~= json_members(b.drop_first()) + seq!['}']);
            members_are_told(a.drop_first(), b.drop_first());
            assert(a =~= seq![a[0]] + a.drop_first());
            assert(b =~= seq![b[0]] + b.drop_first());
        } else {
            assert(a =~= b);
        }
    } else {
        assert(a =~= b);
    }
}

/// The JSON object of a map determines the map.
pub proof fn json_object_determines_values(
    a: Map<Seq<char>, Seq<char>>,
    b: Map<Seq<char>, Seq<char>>,
)
    requires
        a.dom().finite(),
        b.dom().finite(),
        json_object_text(a) == json_object_text(b),
    ensures
        a == b,
{
    let (p, q) = (entries_of(a), entries_of(b));
    finite_map_has_entries(a);
    finite_map_has_entries(b);
    assert(json_object_of(p).skip(1) =~= json_members(p) + seq!['}']);
    assert(json_object_of(q).skip(1) =~= json_members(q) + seq!['}']);
    members_are_told(p, q);
}

/// Whether a character is written as it is inside a JSON string.
pub open spec fn plain(c: char) -> bool {
    c != '"' && c != '\\' && c >= ' '
}

/// A text of plain characters is written as it is.
pub proof fn plain_text_stays(s: Seq<char>)
    requires
        forall|i: int| 0 <= i < s.len() ==> plain(#[trigger] s[i]),
    ensures
        json_escaped(s) == s,
    decreases s.len(),
{
    if s.len() > 0 {
        let rest = s.drop_first();
        assert forall|i: int| 0 <= i < rest.len() implies plain(#[trigger] rest[i]) by {
            assert(rest[i] == s[i + 1]);
        }
        plain_text_stays(rest);
        assert(plain(s[0]));
        assert(json_escaped(s) =~= s);
    } else {
        assert(json_escaped(s) =~= s);
    }
}

/// A text is written character by character.
pub proof fn texts_are_written_by_character(a: Seq<char>, b: Seq<char>)
    ensures
        json_escaped(a + b) == json_escaped(a) + json_escaped(b),
    decreases a.len(),
{
    if a.len() == 0 {
        assert(a + b =~= b);
        assert(json_escaped(a) + json_escaped(b) =~= json_escaped(b));
    } else {
        texts_are_written_by_character(a.drop_first(), b);
        assert((a + b).drop_first() =~= a.drop_first() + b);
        assert(json_escaped(a + b) =~= json_escaped(a) + json_escaped(b));
    }
}

/// How each single character is written.
pub proof fn character_is_written(c: char)
    ensures
        c != '"' && c != '\\' && c >= ' ' ==> json_escaped(seq![c]) == seq![c],
        json_escaped(seq!['"']) == seq!['\\', '"'],
        json_escaped(seq!['\\']) == seq!['\\', '\\'],
        json_escaped(seq!['\n']) == seq!['\\', 'n'],
        json_escaped(seq!['\r']) == seq!['\\', 'r'],
        json_escaped(seq!['\t']) == seq!['\\', 't'],
        json_escaped(seq!['\u{8}']) == seq!['\\', 'b'],
        json_escaped(seq!['\u{c}']) == seq!['\\', 'f'],
        ' ' > c && c != '\n' && c != '\r' && c != '\t' && c != '\u{8}' && c != '\u{c}' ==> ({
            let written = json_escaped(seq![c]);
            &&& written.len() == 6
            &&& written.take(4) == seq!['\\', 'u', '0', '0']
            &&& written[4] == (if c as int >= 16 {
                '1'
            } else {
                '0'
            })
            &&& c as int % 16 < 10 ==> written[5] as int == '0' as int + c as int % 16
            &&& c as int % 16 >= 10 ==> written[5] as int == 'a' as int + c as int % 16 - 10
        }),
{
    reveal_with_fuel(json_escaped, 2);
    assert forall|d: char| #[trigger] json_escaped(seq![d]) == json_escape(d) by {
        assert(seq![d].drop_first() =~= Seq::<char>::empty());
        assert(json_escaped(seq![d]) =~= json_escape(d));
    }
    assert(json_escaped(seq![c]) == json_escape(c));
    if ' ' > c && c != '\n' && c != '\r' && c != '\t' && c != '\u{8}' && c != '\u{c}' {
        assert(json_escape(c).take(4) =~= seq!['\\', 'u', '0', '0']);
    }
}

/// An object without members is a pair of braces.
pub proof fn empty_object()
    ensures
        json_object_of(Seq::<Pair>::empty()) == seq!['{', '}'],
{
    assert(json_object_of(Seq::<Pair>::empty()) =~= seq!['{', '}']);
}

/// An object with one member holds its key and its value as strings.
pub proof fn one_member_object(key: Seq<char>, value: Seq<char>)
    ensures
        json_object_of(seq![(key, value)]) == seq!['{', '"'] + json_escaped(key) + seq![
            '"',
            ':',
            '"',
        ] + json_escaped(value) + seq!['"', '}'],
{
    assert(json_object_of(seq![(key, value)]) =~= seq!['{', '"'] + json_escaped(key) + seq![
        '"',
        ':',
        '"',
    ] + json_escaped(value) + seq!['"', '}']);
}

/// Members stand one after another, with a comma between them: an object of two lists of
/// members is that of the first and that of the second, with a comma in place of the braces
/// between them.
pub proof fn objects_join_at_a_comma(a: Seq<Pair>, b: Seq<Pair>)
    requires
        a.len() > 0,
        b.len() > 0,
    ensures
        json_object_of(a + b) == json_object_of(a).drop_last() + seq![','] + json_object_of(
            b,
        ).drop_first(),
{
    members_join_at_a_comma(a, b);
    assert(json_object_of(a).drop_last() =~= seq!['{'] + json_members(a));
    assert(json_object_of(b).drop_first() =~= json_members(b) + seq!['}']);
    assert(json_object_of(a + b) =~= json_object_of(a).drop_last() + seq![',']
        + json_object_of(b).drop_first());
}

proof fn members_join_at_a_comma(a: Seq<Pair>, b: Seq<Pair>)
    requires
        a.len() > 0,
        b.len() > 0,
    ensures
        json_members(a + b) == json_members(a) + seq![','] + json_members(b),
    decreases a.len(),
{
    assert((a + b).drop_first() =~= a.drop_first() + b);
    if a.len() == 1 {
        assert(a.drop_first() + b =~= b);
        assert(json_members(a + b) =~= json_members(a) + seq![','] + json_members(b));
    } else {
        members_join_at_a_comma(a.drop_first(), b);
        assert(json_members(a + b) =~= json_members(a) + seq![','] + json_members(b));
    }
}

} // verus!
