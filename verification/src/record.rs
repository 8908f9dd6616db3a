//! Records in JSON texts as they stand: the members of an object, repeated ones too, and the items
//! of an array, each as the text that it has.
use vstd::prelude::*;
use serde::de::IgnoredAny;
use crate::json::{array_text, as_text, items_written, member_views, members_written, object_text, quoted, read_value, text_value, value_of, written, Json, JsonView};
use crate::text::{chars_of, joined, opt_view, text_of, views};

verus! {

/// What `serde_json` takes for the first value of a text: the text up to the end of that value, and
/// the text after it; none where the text begins with no value.
pub uninterp spec fn first_value_of(text: Seq<char>) -> Option<(Seq<char>, Seq<char>)>;

/// A text that may follow a value.
pub open spec fn after_value(rest: Seq<char>) -> bool {
    rest.len() == 0 || rest[0] == ',' || rest[0] == ':' || rest[0] == '}' || rest[0] == ']'
}

/// `v` cuts the text behind a value that was written at its beginning, and finds no value where an
/// array or an object ends.
pub open spec fn cut_as_written(v: Option<(Seq<char>, Seq<char>)>, text: Seq<char>) -> bool {
    &&& forall|t: Seq<char>, rest: Seq<char>|
        text == #[trigger] (t + rest) && written(t, 8) && after_value(rest) ==> v == Some((t, rest))
    &&& after_mark(text, ']') is Some || after_mark(text, '}') is Some ==> v is None
}

/// The two texts make up the text, and the first is not empty.
pub open spec fn cuts(v: Option<(Seq<char>, Seq<char>)>, text: Seq<char>) -> bool {
    match v {
        Some((value, rest)) => value.len() > 0 && value + rest == text,
        None => true,
    }
}

pub open spec fn pair_view(r: Option<(String, String)>) -> Option<(Seq<char>, Seq<char>)> {
    match r {
        Some(p) => Some((p.0@, p.1@)),
        None => None,
    }
}

/// The first item of `serde_json::StreamDeserializer` over a text, and its `byte_offset` after that
/// item. The two texts make up the text, and the first is not empty. A value that `serde_json` wrote
/// is cut off where it ends, and a bracket that closes begins no value; of other texts the result is
/// known by the name `first_value_of` only.
#[verifier::external_body]
fn first_value(text: &str) -> (r: Option<(String, String)>)
    ensures
        pair_view(r) == first_value_of(text@),
        cuts(pair_view(r), text@),
        cut_as_written(pair_view(r), text@),
{
    let mut values = serde_json::Deserializer::from_str(text).into_iter::<IgnoredAny>();
    values.next()?.ok()?;
    let (value, rest) = text.split_at(values.byte_offset());
    Some((value.to_string(), rest.to_string()))
}

/// The white space of JSON.
pub open spec fn blank(c: char) -> bool {
    c == ' ' || c == '\n' || c == '\t' || c == '\r'
}

/// A text without the white space at its beginning.
pub open spec fn unblanked(s: Seq<char>) -> Seq<char>
    decreases s.len(),
{
    if s.len() > 0 && blank(s[0]) {
        unblanked(s.drop_first())
    } else {
        s
    }
}

/// What follows a mark at the beginning of a text, white space aside.
pub open spec fn after_mark(s: Seq<char>, mark: char) -> Option<Seq<char>> {
    let u = unblanked(s);
    if u.len() > 0 && u[0] == mark {
        Some(u.drop_first())
    } else {
        None
    }
}

proof fn lemma_unblanked(s: Seq<char>)
    ensures
        unblanked(s).len() <= s.len(),
    decreases s.len(),
{
    if s.len() > 0 && blank(s[0]) {
        lemma_unblanked(s.drop_first());
    }
}

fn take_mark(s: &str, mark: char) -> (r: Option<String>)
    ensures
        opt_view(r) == after_mark(s@, mark),
        r is Some ==> r->0@.len() < s@.len(),
{
    let v = chars_of(s);
    let mut i: usize = 0;
    proof {
        assert(s@.skip(0) =~= s@);
        lemma_unblanked(s@);
    }
    while i < v.len() && (v[i] == ' ' || v[i] == '\n' || v[i] == '\t' || v[i] == '\r')
        invariant
            i <= v@.len(),
            v@ == s@,
            unblanked(s@) == unblanked(s@.skip(i as int)),
        decreases v@.len() - i,
    {
        assert(s@.skip(i as int).drop_first() =~= s@.skip(i + 1));
        i = i + 1;
    }
    assert(unblanked(s@) == s@.skip(i as int));
    if i < v.len() && v[i] == mark {
        let r = text_of(&v, i + 1, v.len());
        assert(r@ =~= s@.skip(i as int).drop_first());
        Some(r)
    } else {
        None
    }
}

/// Nothing but white space.
pub open spec fn all_blank(s: Seq<char>) -> bool {
    unblanked(s).len() == 0
}

fn is_all_blank(s: &str) -> (r: bool)
    ensures
        r == all_blank(s@),
{
    let v = chars_of(s);
    let mut i: usize = 0;
    assert(s@.skip(0) =~= s@);
    while i < v.len() && (v[i] == ' ' || v[i] == '\n' || v[i] == '\t' || v[i] == '\r')
        invariant
            i <= v@.len(),
            v@ == s@,
            unblanked(s@) == unblanked(s@.skip(i as int)),
        decreases v@.len() - i,
    {
        assert(s@.skip(i as int).drop_first() =~= s@.skip(i + 1));
        i = i + 1;
    }
    assert(unblanked(s@) == s@.skip(i as int));
    i == v.len()
}

// ---- Arrays ----

/// The items of an array from one of them on, up to the end of the array and of the text.
pub open spec fn items_from(s: Seq<char>) -> Option<Seq<Seq<char>>>
    decreases s.len(),
{
    match first_value_of(s) {
        None => None,
        Some((item, rest)) => match after_mark(rest, ']') {
            Some(end) => if all_blank(end) {
                Some(seq![item])
            } else {
                None
            },
            None => match after_mark(rest, ',') {
                Some(next) => if next.len() < s.len() {
                    match items_from(next) {
                        Some(items) => Some(seq![item] + items),
                        None => None,
                    }
                } else {
                    None
                },
                None => None,
            },
        },
    }
}

/// The items of the array that a text is, as they stand in it.
pub open spec fn items_of(text: Seq<char>) -> Option<Seq<Seq<char>>> {
    match after_mark(text, '[') {
        None => None,
        Some(inside) => if first_value_of(inside) is Some {
            items_from(inside)
        } else {
            match after_mark(inside, ']') {
                Some(end) => if all_blank(end) {
                    Some(Seq::<Seq<char>>::empty())
                } else {
                    None
                },
                None => None,
            }
        },
    }
}

/// What stands in the text of an array from the `i`-th item on.
pub open spec fn array_tail(a: Seq<Seq<char>>, i: int) -> Seq<char>
    decreases a.len() - i,
{
    if i < 0 || i >= a.len() {
        "]"@
    } else if i == a.len() - 1 {
        a[i] + "]"@
    } else {
        a[i] + (","@ + array_tail(a, i + 1))
    }
}

proof fn lemma_joined_front(parts: Seq<Seq<char>>, sep: Seq<char>)
    requires
        parts.len() > 1,
    ensures
        joined(parts, sep) == parts[0] + (sep + joined(parts.drop_first(), sep)),
    decreases parts.len(),
{
    if parts.len() == 2 {
        assert(parts.drop_last().len() == 1);
        assert(parts.drop_last()[0] == parts[0]);
        assert(parts.drop_first().len() == 1);
        assert(parts.drop_first()[0] == parts[1]);
        assert(joined(parts.drop_last(), sep) == parts[0]);
        assert(joined(parts, sep) =~= parts[0] + (sep + parts[1]));
    } else {
        let p = parts.drop_last();
        lemma_joined_front(p, sep);
        assert(p.drop_first() =~= parts.drop_first().drop_last());
        assert(parts.drop_first().last() == parts.last());
        assert(joined(parts, sep) =~= parts[0] + (sep + joined(parts.drop_first(), sep)));
    }
}

proof fn lemma_array_tail(a: Seq<Seq<char>>, i: int)
    requires
        0 <= i < a.len(),
    ensures
        array_tail(a, i) == joined(a.skip(i), ","@) + "]"@,
    decreases a.len() - i,
{
    let s = a.skip(i);
    if s.len() == 1 {
        assert(s[0] == a[i]);
    } else {
        lemma_array_tail(a, i + 1);
        lemma_joined_front(s, ","@);
        assert(s.drop_first() =~= a.skip(i + 1));
        assert(array_tail(a, i) =~= joined(s, ","@) + "]"@);
    }
}

proof fn lemma_mark(mark: char, rest: Seq<char>)
    requires
        !blank(mark),
    ensures
        after_mark(seq![mark] + rest, mark) == Some(rest),
        forall|other: char| other != mark ==> #[trigger] after_mark(seq![mark] + rest, other) is None,
{
    let s = seq![mark] + rest;
    assert(s[0] == mark);
    assert(s.drop_first() =~= rest);
}

/// What stands in the text of an array behind the `i`-th item.
pub open spec fn array_after(a: Seq<Seq<char>>, i: int) -> Seq<char> {
    if i == a.len() - 1 {
        "]"@
    } else {
        ","@ + array_tail(a, i + 1)
    }
}

proof fn lemma_array_after(a: Seq<Seq<char>>, i: int)
    requires
        0 <= i < a.len(),
    ensures
        i == a.len() - 1 ==> after_mark(array_after(a, i), ']') == Some(Seq::<char>::empty()),
        i < a.len() - 1 ==> after_mark(array_after(a, i), ']') is None && after_mark(
            array_after(a, i),
            ',',
        ) == Some(array_tail(a, i + 1)),
{
    reveal_strlit("]");
    reveal_strlit(",");
    if i == a.len() - 1 {
        assert("]"@ =~= seq![']'] + Seq::<char>::empty());
        lemma_mark(']', Seq::<char>::empty());
    } else {
        assert(","@ =~= seq![',']);
        lemma_mark(',', array_tail(a, i + 1));
    }
}

proof fn lemma_array_cut(a: Seq<Seq<char>>, i: int)
    requires
        0 <= i < a.len(),
    ensures
        array_tail(a, i) == a[i] + array_after(a, i),
        after_value(array_after(a, i)),
{
    reveal_strlit("]");
    reveal_strlit(",");
    if i < a.len() - 1 {
        assert(array_after(a, i)[0] == ',');
    }
}

proof fn lemma_array_text(a: Seq<Seq<char>>)
    ensures
        after_mark(array_text(a), '[') == Some(array_tail(a, 0)),
        after_mark(array_text(a), '{') is None,
        a.len() == 0 ==> after_mark(array_tail(a, 0), ']') == Some(Seq::<char>::empty()),
{
    reveal_strlit("[");
    reveal_strlit("]");
    assert("["@ =~= seq!['[']);
    assert("]"@ =~= seq![']']);
    if a.len() > 0 {
        lemma_array_tail(a, 0);
        assert(a.skip(0) =~= a);
    } else {
        assert(array_tail(a, 0) =~= seq![']'] + Seq::<char>::empty());
        lemma_mark(']', Seq::<char>::empty());
    }
    assert(array_text(a) =~= seq!['['] + array_tail(a, 0));
    lemma_mark('[', array_tail(a, 0));
}

/// The items of the array that a text is, as they stand in it. Those of an array that was written
/// are read back.
pub fn array_items(text: &str) -> (r: Option<Vec<String>>)
    ensures
        match r {
            Some(v) => items_of(text@) == Some(views(v@)),
            None => items_of(text@) is None,
        },
        forall|a: Seq<Seq<char>>|
            items_written(a, 8) && text@ == #[trigger] array_text(a) ==> r is Some && views(r->0@) == a,
{
    proof {
        assert forall|a: Seq<Seq<char>>| text@ == #[trigger] array_text(a) implies after_mark(
            text@,
            '[',
        ) == Some(array_tail(a, 0)) && (a.len() == 0 ==> after_mark(array_tail(a, 0), ']') == Some(
            Seq::<char>::empty(),
        )) by {
            lemma_array_text(a);
        }
    }
    let inside = match take_mark(text, '[') {
        None => {
            return None;
        },
        Some(s) => s,
    };
    if first_value(&inside).is_none() {
        proof {
            assert forall|a: Seq<Seq<char>>|
                items_written(a, 8) && text@ == #[trigger] array_text(a) implies a
                =~= Seq::<Seq<char>>::empty() && after_mark(inside@, ']') == Some(
                Seq::<char>::empty(),
            ) by {
                if a.len() > 0 {
                    lemma_array_cut(a, 0);
                }
            }
        }
        return match take_mark(&inside, ']') {
            Some(end) => if is_all_blank(&end) {
                let none: Vec<String> = Vec::new();
                assert(views(none@) =~= Seq::<Seq<char>>::empty());
                Some(none)
            } else {
                None
            },
            None => None,
        };
    }
    let mut rest = inside.clone();
    let mut out: Vec<String> = Vec::new();
    proof {
        assert(views(out@) =~= Seq::<Seq<char>>::empty());
        assert forall|a: Seq<Seq<char>>|
            items_written(a, 8) && text@ == #[trigger] array_text(a) implies a.len() > 0
            && views(out@) == a.take(0) by {
            assert(a.take(0) =~= views(out@));
        }
        if let Some(m) = items_from(rest@) {
            assert(views(out@) + m =~= m);
        }
    }
    loop
        invariant
            items_of(text@) == items_from(inside@),
            match items_from(rest@) {
                Some(m) => items_from(inside@) == Some(views(out@) + m),
                None => items_from(inside@) is None,
            },
            forall|a: Seq<Seq<char>>|
                items_written(a, 8) && text@ == #[trigger] array_text(a) ==> out@.len() < a.len()
                    && rest@ == array_tail(a, out@.len() as int) && views(out@) == a.take(
                    out@.len() as int,
                ),
        decreases rest@.len(),
    {
        let ghost i = out@.len() as int;
        let (item, after) = match first_value(&rest) {
            None => {
                proof {
                    assert forall|a: Seq<Seq<char>>|
                        items_written(a, 8) && text@ == #[trigger] array_text(a) implies false by {
                        lemma_array_cut(a, i);
                    }
                }
                return None;
            },
            Some(p) => p,
        };
        proof {
            assert forall|a: Seq<Seq<char>>|
                items_written(a, 8) && text@ == #[trigger] array_text(a) implies item@ == a[i]
                && after@ == array_after(a, i) by {
                lemma_array_cut(a, i);
            }
        }
        if let Some(end) = take_mark(&after, ']') {
            let ghost before = out@;
            let done = is_all_blank(&end);
            out.push(item);
            proof {
                assert(views(out@) =~= views(before).push(item@));
                assert(views(before) + seq![item@] =~= views(out@));
                assert forall|a: Seq<Seq<char>>|
                    items_written(a, 8) && text@ == #[trigger] array_text(a) implies done
                    && views(out@) == a by {
                    lemma_array_after(a, i);
                    assert(a.take(i).push(a[i]) =~= a);
                }
            }
            return if done {
                Some(out)
            } else {
                None
            };
        }
        proof {
            assert forall|a: Seq<Seq<char>>|
                items_written(a, 8) && text@ == #[trigger] array_text(a) implies i + 1 < a.len()
                && after_mark(after@, ',') == Some(array_tail(a, i + 1)) && a.take(i + 1) == a.take(
                i,
            ).push(a[i]) by {
                lemma_array_after(a, i);
                assert(a.take(i + 1) =~= a.take(i).push(a[i]));
            }
        }
        match take_mark(&after, ',') {
            None => {
                return None;
            },
            Some(next) => {
                let ghost before = out@;
                out.push(item);
                proof {
                    assert(views(out@) =~= views(before).push(item@));
                    if let Some(m) = items_from(next@) {
                        assert(views(before) + (seq![item@] + m) =~= views(out@) + m);
                    }
                }
                rest = next;
            },
        }
    }
}

// ---- Objects ----

/// The member at the beginning of a text, as its key and the text of its value, and the text after
/// it.
pub open spec fn first_member(s: Seq<char>) -> Option<((Seq<char>, Seq<char>), Seq<char>)> {
    match first_value_of(s) {
        None => None,
        Some((k, rest)) => match (text_value(k), after_mark(rest, ':')) {
            (Some(key), Some(v)) => match first_value_of(v) {
                None => None,
                Some((value, after)) => Some(((key, value), after)),
            },
            _ => None,
        },
    }
}

/// A text that begins with a member as it is written.
pub open spec fn member_start(key: Seq<char>, value: Seq<char>, after: Seq<char>) -> Seq<char> {
    quoted(key) + (":"@ + (value + after))
}

pub open spec fn member_pair(r: Option<((String, String), String)>) -> Option<
    ((Seq<char>, Seq<char>), Seq<char>),
> {
    match r {
        Some(((key, value), after)) => Some(((key@, value@), after@)),
        None => None,
    }
}

fn take_member(s: &str) -> (r: Option<((String, String), String)>)
    ensures
        member_pair(r) == first_member(s@),
        match member_pair(r) {
            Some((_, after)) => after.len() < s@.len() && after_mark(s@, '}') is None,
            None => true,
        },
        forall|key: Seq<char>, value: Seq<char>, after: Seq<char>|
            s@ == #[trigger] member_start(key, value, after) && written(value, 8) && after_value(after)
                ==> member_pair(r) == Some(((key, value), after)),
{
    let cut = first_value(s);
    proof {
        assert forall|key: Seq<char>, value: Seq<char>, after: Seq<char>|
            s@ == #[trigger] member_start(key, value, after) implies pair_view(cut) == Some(
            (quoted(key), ":"@ + (value + after)),
        ) && after_mark(":"@ + (value + after), ':') == Some(value + after) by {
            reveal_strlit(":");
            assert(":"@ =~= seq![':']);
            assert((":"@ + (value + after))[0] == ':');
            assert(written(quoted(key), 8));
            lemma_mark(':', value + after);
        }
    }
    let (k, rest) = match cut {
        None => {
            return None;
        },
        Some(p) => p,
    };
    let key = match as_text(&k) {
        None => {
            return None;
        },
        Some(t) => t,
    };
    let v = match take_mark(&rest, ':') {
        None => {
            return None;
        },
        Some(t) => t,
    };
    match first_value(&v) {
        None => None,
        Some((value, after)) => Some(((key, value), after)),
    }
}

/// The members of an object from one of them on, up to the end of the object and of the text.
pub open spec fn members_from(s: Seq<char>) -> Option<Seq<(Seq<char>, Seq<char>)>>
    decreases s.len(),
{
    match first_member(s) {
        None => None,
        Some((member, rest)) => match after_mark(rest, '}') {
            Some(end) => if all_blank(end) {
                Some(seq![member])
            } else {
                None
            },
            None => match after_mark(rest, ',') {
                Some(next) => if next.len() < s.len() {
                    match members_from(next) {
                        Some(members) => Some(seq![member] + members),
                        None => None,
                    }
                } else {
                    None
                },
                None => None,
            },
        },
    }
}

/// The members of the object that a text is, as they stand in it.
pub open spec fn members_of(text: Seq<char>) -> Option<Seq<(Seq<char>, Seq<char>)>> {
    match after_mark(text, '{') {
        None => None,
        Some(inside) => if first_member(inside) is Some {
            members_from(inside)
        } else {
            match after_mark(inside, '}') {
                Some(end) => if all_blank(end) {
                    Some(Seq::<(Seq<char>, Seq<char>)>::empty())
                } else {
                    None
                },
                None => None,
            }
        },
    }
}

/// What stands in the text of an object behind the `i`-th member.
pub open spec fn object_after(m: Seq<(Seq<char>, Seq<char>)>, i: int) -> Seq<char>
    decreases m.len() - i, 0nat,
{
    if i < 0 || i >= m.len() - 1 {
        "}"@
    } else {
        ","@ + object_tail(m, i + 1)
    }
}

/// What stands in the text of an object from the `i`-th member on.
pub open spec fn object_tail(m: Seq<(Seq<char>, Seq<char>)>, i: int) -> Seq<char>
    decreases m.len() - i, 1nat,
{
    if i < 0 || i >= m.len() {
        "}"@
    } else {
        member_start(m[i].0, m[i].1, object_after(m, i))
    }
}

/// The texts of the members of an object.
pub open spec fn member_parts(m: Seq<(Seq<char>, Seq<char>)>) -> Seq<Seq<char>> {
    m.map_values(|e: (Seq<char>, Seq<char>)| quoted(e.0) + ":"@ + e.1)
}

proof fn lemma_object_tail(m: Seq<(Seq<char>, Seq<char>)>, i: int)
    requires
        0 <= i < m.len(),
    ensures
        object_tail(m, i) == joined(member_parts(m).skip(i), ","@) + "}"@,
    decreases m.len() - i,
{
    let s = member_parts(m).skip(i);
    assert(s[0] == quoted(m[i].0) + ":"@ + m[i].1);
    if s.len() == 1 {
        assert(joined(s, ","@) == s[0]);
        assert(object_tail(m, i) =~= s[0] + "}"@);
    } else {
        lemma_object_tail(m, i + 1);
        lemma_joined_front(s, ","@);
        assert(s.drop_first() =~= member_parts(m).skip(i + 1));
        assert(object_tail(m, i) =~= joined(s, ","@) + "}"@);
    }
}

proof fn lemma_object_after(m: Seq<(Seq<char>, Seq<char>)>, i: int)
    requires
        0 <= i < m.len(),
    ensures
        after_value(object_after(m, i)),
        i == m.len() - 1 ==> after_mark(object_after(m, i), '}') == Some(Seq::<char>::empty()),
        i < m.len() - 1 ==> after_mark(object_after(m, i), '}') is None && after_mark(
            object_after(m, i),
            ',',
        ) == Some(object_tail(m, i + 1)),
{
    reveal_strlit("}");
    reveal_strlit(",");
    if i == m.len() - 1 {
        assert("}"@ =~= seq!['}'] + Seq::<char>::empty());
        lemma_mark('}', Seq::<char>::empty());
    } else {
        assert(","@ =~= seq![',']);
        assert(object_after(m, i)[0] == ',');
        lemma_mark(',', object_tail(m, i + 1));
    }
}

proof fn lemma_object_text(m: Seq<(Seq<char>, Seq<char>)>)
    ensures
        after_mark(object_text(m), '{') == Some(object_tail(m, 0)),
        m.len() == 0 ==> after_mark(object_tail(m, 0), '}') == Some(Seq::<char>::empty()),
{
    reveal_strlit("{");
    reveal_strlit("}");
    assert("{"@ =~= seq!['{']);
    assert("}"@ =~= seq!['}']);
    if m.len() > 0 {
        lemma_object_tail(m, 0);
        assert(member_parts(m).skip(0) =~= member_parts(m));
    } else {
        assert(member_parts(m).len() == 0);
        assert(object_tail(m, 0) =~= seq!['}'] + Seq::<char>::empty());
        lemma_mark('}', Seq::<char>::empty());
    }
    assert(object_text(m) =~= seq!['{'] + object_tail(m, 0));
    lemma_mark('{', object_tail(m, 0));
}

/// The members of the object that a text is, as they stand in it. Those of an object that was
/// written are read back.
pub fn object_members(text: &str) -> (r: Option<Vec<(String, String)>>)
    ensures
        match r {
            Some(v) => members_of(text@) == Some(member_views(v@)),
            None => members_of(text@) is None,
        },
        forall|m: Seq<(Seq<char>, Seq<char>)>|
            members_written(m, 8) && text@ == #[trigger] object_text(m) ==> r is Some && member_views(
                r->0@,
            ) == m,
{
    proof {
        assert forall|m: Seq<(Seq<char>, Seq<char>)>| text@ == #[trigger] object_text(
            m,
        ) implies after_mark(text@, '{') == Some(object_tail(m, 0)) && (m.len() == 0 ==> after_mark(
            object_tail(m, 0),
            '}',
        ) == Some(Seq::<char>::empty())) by {
            lemma_object_text(m);
        }
    }
    let inside = match take_mark(text, '{') {
        None => {
            return None;
        },
        Some(s) => s,
    };
    let cut = take_member(&inside);
    proof {
        assert forall|m: Seq<(Seq<char>, Seq<char>)>|
            members_written(m, 8) && text@ == #[trigger] object_text(m) implies (cut is Some) == (m.len()
            > 0) by {
            if m.len() > 0 {
                lemma_object_after(m, 0);
                assert(object_tail(m, 0) == member_start(m[0].0, m[0].1, object_after(m, 0)));
            }
        }
    }
    if cut.is_none() {
        proof {
            assert forall|m: Seq<(Seq<char>, Seq<char>)>|
                members_written(m, 8) && text@ == #[trigger] object_text(m) implies m
                =~= Seq::<(Seq<char>, Seq<char>)>::empty() by {}
        }
        return match take_mark(&inside, '}') {
            Some(end) => if is_all_blank(&end) {
                let none: Vec<(String, String)> = Vec::new();
                assert(member_views(none@) =~= Seq::<(Seq<char>, Seq<char>)>::empty());
                Some(none)
            } else {
                None
            },
            None => None,
        };
    }
    let mut rest = inside.clone();
    let mut out: Vec<(String, String)> = Vec::new();
    proof {
        assert(member_views(out@) =~= Seq::<(Seq<char>, Seq<char>)>::empty());
        assert forall|m: Seq<(Seq<char>, Seq<char>)>|
            members_written(m, 8) && text@ == #[trigger] object_text(m) implies m.len() > 0
            && member_views(out@) == m.take(0) by {
            assert(m.take(0) =~= member_views(out@));
        }
        if let Some(m) = members_from(rest@) {
            assert(member_views(out@) + m =~= m);
        }
    }
    loop
        invariant
            members_of(text@) == members_from(inside@),
            match members_from(rest@) {
                Some(m) => members_from(inside@) == Some(member_views(out@) + m),
                None => members_from(inside@) is None,
            },
            forall|m: Seq<(Seq<char>, Seq<char>)>|
                members_written(m, 8) && text@ == #[trigger] object_text(m) ==> out@.len() < m.len()
                    && rest@ == object_tail(m, out@.len() as int) && member_views(out@) == m.take(
                    out@.len() as int,
                ),
        decreases rest@.len(),
    {
        let ghost i = out@.len() as int;
        let cut = take_member(&rest);
        proof {
            assert forall|m: Seq<(Seq<char>, Seq<char>)>|
                members_written(m, 8) && text@ == #[trigger] object_text(m) implies member_pair(cut)
                == Some((m[i], object_after(m, i))) by {
                lemma_object_after(m, i);
                assert(rest@ == member_start(m[i].0, m[i].1, object_after(m, i)));
            }
        }
        let (member, after) = match cut {
            None => {
                return None;
            },
            Some(p) => p,
        };
        let ghost seen = (member.0@, member.1@);
        let ghost before = out@;
        if let Some(end) = take_mark(&after, '}') {
            let done = is_all_blank(&end);
            out.push(member);
            proof {
                assert(member_views(out@) =~= member_views(before).push(seen));
                assert(member_views(before) + seq![seen] =~= member_views(out@));
                assert forall|m: Seq<(Seq<char>, Seq<char>)>|
                    members_written(m, 8) && text@ == #[trigger] object_text(m) implies done
                    && member_views(out@) == m by {
                    lemma_object_after(m, i);
                    assert(m.take(i).push(m[i]) =~= m);
                }
            }
            return if done {
                Some(out)
            } else {
                None
            };
        }
        proof {
            assert forall|m: Seq<(Seq<char>, Seq<char>)>|
                members_written(m, 8) && text@ == #[trigger] object_text(m) implies i + 1 < m.len()
                && after_mark(after@, ',') == Some(object_tail(m, i + 1)) && m.take(i + 1) == m.take(
                i,
            ).push(m[i]) by {
                lemma_object_after(m, i);
                assert(m.take(i + 1) =~= m.take(i).push(m[i]));
            }
        }
        match take_mark(&after, ',') {
            None => {
                return None;
            },
            Some(next) => {
                out.push(member);
                proof {
                    assert(member_views(out@) =~= member_views(before).push(seen));
                    if let Some(m) = members_from(next@) {
                        assert(member_views(before) + (seq![seen] + m) =~= member_views(out@) + m);
                    }
                }
                rest = next;
            },
        }
    }
}

// ---- Values ----

/// A JSON text read as a value whose members are as they stand in the text, repeated ones too; `null`
/// where it cannot be read.
pub open spec fn shape_of(text: Seq<char>) -> JsonView {
    if after_mark(text, '{') is Some {
        match members_of(text) {
            Some(m) => JsonView::Object(m),
            None => JsonView::Null,
        }
    } else if after_mark(text, '[') is Some {
        match items_of(text) {
            Some(a) => JsonView::Array(a),
            None => JsonView::Null,
        }
    } else {
        value_of(text)
    }
}

/// A JSON text read as a value whose members are as they stand in the text; what was written is read
/// back.
pub fn read_shape(text: &str) -> (r: Json)
    ensures
        r@ == shape_of(text@),
        forall|m: Seq<(Seq<char>, Seq<char>)>|
            members_written(m, 8) && text@ == #[trigger] object_text(m) ==> r@ == JsonView::Object(m),
        forall|a: Seq<Seq<char>>|
            items_written(a, 8) && text@ == #[trigger] array_text(a) ==> r@ == JsonView::Array(a),
{
    proof {
        assert forall|m: Seq<(Seq<char>, Seq<char>)>| text@ == #[trigger] object_text(
            m,
        ) implies after_mark(text@, '{') is Some by {
            lemma_object_text(m);
        }
        assert forall|a: Seq<Seq<char>>| text@ == #[trigger] array_text(a) implies after_mark(
            text@,
            '[',
        ) is Some && after_mark(text@, '{') is None by {
            lemma_array_text(a);
        }
    }
    if take_mark(text, '{').is_some() {
        match object_members(text) {
            Some(m) => Json::Object(m),
            None => Json::Null,
        }
    } else if take_mark(text, '[').is_some() {
        match array_items(text) {
            Some(a) => Json::Array(a),
            None => Json::Null,
        }
    } else {
        read_value(text)
    }
}

// ---- Laws ----

/// Blanks are passed over: a text is blanks and then what is left, which begins with none.
pub proof fn blanks_are_passed_over(s: Seq<char>, c: char) -> (n: int)
    ensures
        0 <= n <= s.len(),
        unblanked(s) == s.skip(n),
        forall|i: int| 0 <= i < n ==> blank(#[trigger] s[i]),
        n < s.len() ==> !blank(s[n]),
        all_blank(s) <==> n == s.len(),
        blank(c) <==> c as int == 32 || c as int == 10 || c as int == 9 || c as int == 13,
    decreases s.len(),
{
    if s.len() > 0 && blank(s[0]) {
        let d = s.drop_first();
        let n = blanks_are_passed_over(d, c);
        assert(s.skip(n + 1) =~= d.skip(n));
        assert forall|i: int| 0 <= i < n + 1 implies blank(#[trigger] s[i]) by {
            if i > 0 {
                assert(d[i - 1] == s[i]);
            }
        }
        if n < d.len() {
            assert(d[n] == s[n + 1]);
        }
        n + 1
    } else {
        assert(s.skip(0) =~= s);
        0
    }
}

/// A mark is found at the beginning of a text, blanks aside, and what follows it is the rest.
pub proof fn marks_are_found_behind_blanks(s: Seq<char>, mark: char, rest: Seq<char>)
    requires
        !blank(mark),
    ensures
        after_mark(seq![mark] + rest, mark) == Some(rest),
        after_mark(seq![' '] + s, mark) == after_mark(s, mark),
        after_mark(seq!['\n'] + s, mark) == after_mark(s, mark),
        after_mark(seq!['\t'] + s, mark) == after_mark(s, mark),
        after_mark(seq!['\r'] + s, mark) == after_mark(s, mark),
        s.len() > 0 && !blank(s[0]) && s[0] != mark ==> after_mark(s, mark) is None,
        s.len() == 0 ==> after_mark(s, mark) is None,
{
    assert((seq![mark] + rest).drop_first() =~= rest);
    assert((seq![' '] + s).drop_first() =~= s);
    assert((seq!['\n'] + s).drop_first() =~= s);
    assert((seq!['\t'] + s).drop_first() =~= s);
    assert((seq!['\r'] + s).drop_first() =~= s);
}

/// The items of a list come in order, one behind each comma, up to the bracket that ends it, with
/// nothing behind that.
pub proof fn lists_are_read_item_by_item(s: Seq<char>, item: Seq<char>, rest: Seq<char>)
    requires
        first_value_of(s) == Some((item, rest)),
    ensures
        after_mark(rest, ']') is Some && all_blank(after_mark(rest, ']')->0) ==> items_from(s) == Some(
            seq![item],
        ),
        after_mark(rest, ']') is Some && !all_blank(after_mark(rest, ']')->0) ==> items_from(s) is None,
        after_mark(rest, ']') is None && after_mark(rest, ',') is None ==> items_from(s) is None,
        after_mark(rest, ']') is None && after_mark(rest, ',') is Some && after_mark(
            rest,
            ',',
        )->0.len() < s.len() ==> match items_from(after_mark(rest, ',')->0) {
            Some(l) => items_from(s) == Some(seq![item] + l),
            None => items_from(s) is None,
        },
{
}

/// The members of an object come in order, one behind each comma, up to the brace that ends it, with
/// nothing behind that; each is a key that is a string, a colon and a value.
pub proof fn objects_are_read_member_by_member(
    s: Seq<char>,
    k: Seq<char>,
    key: Seq<char>,
    colon: Seq<char>,
    value: Seq<char>,
    rest: Seq<char>,
)
    requires
        first_value_of(s) == Some((k, colon)),
        text_value(k) == Some(key),
        after_mark(colon, ':') is Some,
        first_value_of(after_mark(colon, ':')->0) == Some((value, rest)),
    ensures
        first_member(s) == Some(((key, value), rest)),
        after_mark(rest, '}') is Some && all_blank(after_mark(rest, '}')->0) ==> members_from(s)
            == Some(seq![(key, value)]),
        after_mark(rest, '}') is Some && !all_blank(after_mark(rest, '}')->0) ==> members_from(s)
            is None,
        after_mark(rest, '}') is None && after_mark(rest, ',') is None ==> members_from(s) is None,
        after_mark(rest, '}') is None && after_mark(rest, ',') is Some && after_mark(
            rest,
            ',',
        )->0.len() < s.len() ==> match members_from(after_mark(rest, ',')->0) {
            Some(l) => members_from(s) == Some(seq![(key, value)] + l),
            None => members_from(s) is None,
        },
{
}

/// A text that begins with a brace is an object, one that begins with a bracket a list, each with
/// its parts as they are written, and null where they cannot be read; any other is its value.
pub proof fn shapes_go_by_the_first_mark(text: Seq<char>)
    ensures
        after_mark(text, '{') is Some ==> match members_of(text) {
            Some(m) => shape_of(text) == JsonView::Object(m),
            None => shape_of(text) is Null,
        },
        after_mark(text, '{') is None && after_mark(text, '[') is Some ==> match items_of(text) {
            Some(a) => shape_of(text) == JsonView::Array(a),
            None => shape_of(text) is Null,
        },
        after_mark(text, '{') is None && after_mark(text, '[') is None ==> shape_of(text) == value_of(
            text,
        ),
        after_mark(text, '[') is None ==> items_of(text) is None,
        after_mark(text, '{') is None ==> members_of(text) is None,
        after_mark(text, '[') is Some && first_value_of(after_mark(text, '[')->0) is Some ==> items_of(
            text,
        ) == items_from(after_mark(text, '[')->0),
        after_mark(text, '{') is Some && first_member(after_mark(text, '{')->0) is Some ==> members_of(
            text,
        ) == members_from(after_mark(text, '{')->0),
{
}

} // verus!
