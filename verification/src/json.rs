//! JSON values one level deep: members of arrays and objects are held as JSON text.
use vstd::prelude::*;
use serde_json::Value;
use crate::number::{decimal, signed_decimal};
use crate::record::{array_items, items_of};
use crate::text::{cat3, joined, opt_view, same, views};

verus! {

pub enum Json {
    Null,
    Bool(bool),
    Unsigned(u64),
    Negative(i64),
    /// A number that is no 64-bit integer, as JSON text.
    Real(String),
    Text(String),
    Array(Vec<String>),
    Object(Vec<(String, String)>),
}

pub enum JsonView {
    Null,
    Bool(bool),
    Unsigned(u64),
    Negative(i64),
    Real(Seq<char>),
    Text(Seq<char>),
    Array(Seq<Seq<char>>),
    Object(Seq<(Seq<char>, Seq<char>)>),
}

impl Json {
    pub open spec fn view(&self) -> JsonView {
        match self {
            Json::Null => JsonView::Null,
            Json::Bool(b) => JsonView::Bool(*b),
            Json::Unsigned(n) => JsonView::Unsigned(*n),
            Json::Negative(n) => JsonView::Negative(*n),
            Json::Real(t) => JsonView::Real(t@),
            Json::Text(t) => JsonView::Text(t@),
            Json::Array(a) => JsonView::Array(views(a@)),
            Json::Object(m) => JsonView::Object(member_views(m@)),
        }
    }
}

pub open spec fn json_result(r: Result<Json, String>) -> Result<JsonView, Seq<char>> {
    match r {
        Ok(j) => Ok(j@),
        Err(e) => Err(e@),
    }
}

/// What `serde_json::from_str` makes of a text: the value, its members given by the text that
/// `serde_json` writes for them, or the message of its error. Of members with the same key the last
/// one counts.
pub uninterp spec fn json_of(text: Seq<char>) -> Result<JsonView, Seq<char>>;

/// A digit of a number in base sixteen.
pub open spec fn hex_digit(n: int) -> char {
    "0123456789abcdef"@[n]
}

/// How a character stands in the JSON text of a string: the quote and the backslash behind a
/// backslash, five control characters by a letter, the others by their number, the rest unchanged.
pub open spec fn escaped_char(c: char) -> Seq<char> {
    if c == '"' || c == '\\' {
        seq!['\\', c]
    } else if c == '\u{8}' {
        seq!['\\', 'b']
    } else if c == '\u{c}' {
        seq!['\\', 'f']
    } else if c == '\n' {
        seq!['\\', 'n']
    } else if c == '\r' {
        seq!['\\', 'r']
    } else if c == '\t' {
        seq!['\\', 't']
    } else if ' ' > c {
        seq!['\\', 'u', '0', '0', hex_digit(c as int / 16), hex_digit(c as int % 16)]
    } else {
        seq![c]
    }
}

/// The characters of a string as they stand in its JSON text.
pub open spec fn escaped(s: Seq<char>) -> Seq<char>
    decreases s.len(),
{
    if s.len() == 0 {
        Seq::<char>::empty()
    } else {
        escaped(s.drop_last()) + escaped_char(s.last())
    }
}

/// The JSON text that `serde_json` writes for a string.
pub open spec fn quoted(s: Seq<char>) -> Seq<char> {
    seq!['"'] + escaped(s) + seq!['"']
}

/// A text that `serde_json` writes for a value whose numbers are 64-bit integers and which is nested
/// no deeper than `depth`.
pub open spec fn written(t: Seq<char>, depth: nat) -> bool
    decreases depth, 0nat,
{
    ||| t == "null"@
    ||| t == "true"@
    ||| t == "false"@
    ||| exists|s: Seq<char>| t == #[trigger] quoted(s)
    ||| exists|n: u64| t == #[trigger] decimal(n as nat)
    ||| exists|n: i64| n < 0 && t == #[trigger] signed_decimal(n as int)
    ||| depth > 0 && exists|a: Seq<Seq<char>>|
        t == #[trigger] array_text(a) && items_written(a, (depth - 1) as nat)
    ||| depth > 0 && exists|m: Seq<(Seq<char>, Seq<char>)>|
        t == #[trigger] object_text(m) && members_written(m, (depth - 1) as nat)
}

/// Each item is such a text.
pub open spec fn items_written(a: Seq<Seq<char>>, depth: nat) -> bool
    decreases depth, 1nat,
{
    forall|i: int| 0 <= i < a.len() ==> written(#[trigger] a[i], depth)
}

/// Each member is such a text, and no key comes twice.
pub open spec fn members_written(m: Seq<(Seq<char>, Seq<char>)>, depth: nat) -> bool
    decreases depth, 1nat,
{
    &&& forall|i: int, k: int| 0 <= i < k < m.len() ==> (#[trigger] m[i]).0 != (#[trigger] m[k]).0
    &&& forall|i: int| 0 <= i < m.len() ==> written((#[trigger] m[i]).1, depth)
}

/// Such a text, nested no deeper than four levels.
pub open spec fn plain(t: Seq<char>) -> bool {
    forall|depth: nat| depth >= 4 ==> #[trigger] written(t, depth)
}

/// `v` is what was written as the text, where it is the text of null, of a string, of a 64-bit
/// integer, or of an object or an array whose members are not nested deeply.
pub open spec fn as_written(v: Result<JsonView, Seq<char>>, text: Seq<char>) -> bool {
    &&& text == "null"@ ==> v == Ok::<JsonView, Seq<char>>(JsonView::Null)
    &&& forall|n: i64| n < 0 && text == #[trigger] signed_decimal(n as int) ==> v == Ok::<
        JsonView,
        Seq<char>,
    >(JsonView::Negative(n))
    &&& forall|s: Seq<char>| text == #[trigger] quoted(s) ==> v == Ok::<JsonView, Seq<char>>(
        JsonView::Text(s),
    )
    &&& forall|n: u64| text == #[trigger] decimal(n as nat) ==> v == Ok::<JsonView, Seq<char>>(
        JsonView::Unsigned(n),
    )
    &&& forall|a: Seq<Seq<char>>|
        text == #[trigger] array_text(a) && items_written(a, 8) ==> v == Ok::<
            JsonView,
            Seq<char>,
        >(JsonView::Array(a))
    &&& forall|m: Seq<(Seq<char>, Seq<char>)>|
        text == #[trigger] object_text(m) && members_written(m, 8) ==> v == Ok::<
            JsonView,
            Seq<char>,
        >(JsonView::Object(m))
}

/// Reading a text gives back what was written as it.
pub open spec fn reads_back(text: Seq<char>) -> bool {
    as_written(json_of(text), text)
}

/// `serde_json::from_str::<serde_json::Value>`, with the members of an object in their order. What
/// `serde_json` wrote is read back; of other texts the result is known by the name `json_of` only.
#[verifier::external_body]
pub(crate) fn parse_json(text: &str) -> (r: Result<Json, String>)
    ensures
        json_result(r) == json_of(text@),
        as_written(json_result(r), text@),
{
    let value: Value = serde_json::from_str(text).map_err(|e: serde_json::Error| e.to_string())?;
    Ok(match value {
        Value::Null => Json::Null,
        Value::Bool(b) => Json::Bool(b),
        Value::Number(n) => n.as_u64().map(Json::Unsigned)
            .or(n.as_i64().map(Json::Negative)).unwrap_or(Json::Real(n.to_string())),
        Value::String(s) => Json::Text(s),
        Value::Array(a) => Json::Array(a.iter().map(Value::to_string).collect()),
        Value::Object(m) => Json::Object(m.into_iter().map(|(k, x)| (k, x.to_string())).collect()),
    })
}

/// The JSON text of a string as `serde_json::Value` writes it: between quotes, with the quote, the
/// backslash and the control characters escaped. Reading it again gives the string.
#[verifier::external_body]
pub(crate) fn quote(s: &str) -> (r: String)
    ensures
        r@ == quoted(s@),
        text_value(r@) == Some(s@),
{
    Value::from(s).to_string()
}

/// The first member under a key.
pub open spec fn member_in(m: Seq<(Seq<char>, Seq<char>)>, key: Seq<char>) -> Option<Seq<char>>
    decreases m.len(),
{
    if m.len() == 0 {
        None
    } else if m[0].0 == key {
        Some(m[0].1)
    } else {
        member_in(m.drop_first(), key)
    }
}

/// The JSON text of the member under a key; none where the value is no object.
pub open spec fn member(j: JsonView, key: Seq<char>) -> Option<Seq<char>> {
    match j {
        JsonView::Object(m) => member_in(m, key),
        _ => None,
    }
}

/// The string that a JSON text stands for.
pub open spec fn text_value(t: Seq<char>) -> Option<Seq<char>> {
    match json_of(t) {
        Ok(JsonView::Text(s)) => Some(s),
        _ => None,
    }
}

/// The string under a key.
pub open spec fn text_member(j: JsonView, key: Seq<char>) -> Option<Seq<char>> {
    match member(j, key) {
        Some(t) => text_value(t),
        None => None,
    }
}

pub fn member_text(j: &Json, key: &str) -> (r: Option<String>)
    ensures
        opt_view(r) == member(j@, key@),
{
    match j {
        Json::Object(m) => {
            let ghost mv = member_views(m@);
            let mut i: usize = 0;
            assert(mv.skip(0) == mv);
            while i < m.len()
                invariant
                    i <= m@.len(),
                    mv == member_views(m@),
                    j@ == JsonView::Object(mv),
                    member_in(mv, key@) == member_in(mv.skip(i as int), key@),
                decreases m@.len() - i,
            {
                assert(mv.skip(i as int)[0] == (m@[i as int].0@, m@[i as int].1@));
                assert(mv.skip(i as int).drop_first() == mv.skip(i + 1));
                if same(m[i].0.as_str(), key) {
                    return Some(m[i].1.clone());
                }
                i = i + 1;
            }
            None
        },
        _ => None,
    }
}

/// The string that a JSON text stands for.
pub fn as_text(t: &str) -> (r: Option<String>)
    ensures
        opt_view(r) == text_value(t@),
        reads_back(t@),
{
    match parse_json(t) {
        Ok(Json::Text(s)) => Some(s),
        _ => None,
    }
}

/// The string under a key.
pub fn get_text(j: &Json, key: &str) -> (r: Option<String>)
    ensures
        opt_view(r) == text_member(j@, key@),
        member(j@, key@) is Some ==> reads_back(member(j@, key@)->0),
{
    match member_text(j, key) {
        Some(t) => as_text(&t),
        None => None,
    }
}

/// The unsigned 64-bit integer that a JSON text stands for.
pub open spec fn unsigned_value(t: Seq<char>) -> Option<u64> {
    match json_of(t) {
        Ok(JsonView::Unsigned(n)) => Some(n),
        _ => None,
    }
}

/// The unsigned 64-bit integer that a JSON text stands for.
pub fn as_unsigned(t: &str) -> (r: Option<u64>)
    ensures
        r == unsigned_value(t@),
        reads_back(t@),
{
    match parse_json(t) {
        Ok(Json::Unsigned(n)) => Some(n),
        _ => None,
    }
}

/// A JSON text read as a value; `null` where it cannot be read.
pub open spec fn value_of(t: Seq<char>) -> JsonView {
    match json_of(t) {
        Ok(j) => j,
        Err(_) => JsonView::Null,
    }
}

/// A JSON text read as a value; `null` where it cannot be read.
pub fn read_value(t: &str) -> (r: Json)
    ensures
        r@ == value_of(t@),
        reads_back(t@),
{
    match parse_json(t) {
        Ok(j) => j,
        Err(_) => Json::Null,
    }
}

/// The JSON text of an object from its members' texts, in order.
pub open spec fn object_text(members: Seq<(Seq<char>, Seq<char>)>) -> Seq<char> {
    "{"@ + joined(
        members.map_values(|e: (Seq<char>, Seq<char>)| quoted(e.0) + ":"@ + e.1),
        ","@,
    ) + "}"@
}

/// The JSON text of an array from its items' texts, in order.
pub open spec fn array_text(items: Seq<Seq<char>>) -> Seq<char> {
    "["@ + joined(items, ","@) + "]"@
}

pub open spec fn member_views(m: Seq<(String, String)>) -> Seq<(Seq<char>, Seq<char>)> {
    m.map_values(|e: (String, String)| (e.0@, e.1@))
}

pub fn write_object(members: &Vec<(String, String)>) -> (r: String)
    ensures
        r@ == object_text(member_views(members@)),
{
    let mut parts: Vec<String> = Vec::new();
    let mut i: usize = 0;
    let ghost want = member_views(members@).map_values(
        |e: (Seq<char>, Seq<char>)| quoted(e.0) + ":"@ + e.1,
    );
    while i < members.len()
        invariant
            i <= members@.len(),
            want == member_views(members@).map_values(
                |e: (Seq<char>, Seq<char>)| quoted(e.0) + ":"@ + e.1,
            ),
            views(parts@) == want.take(i as int),
        decreases members@.len() - i,
    {
        let key = quote(&members[i].0);
        let part = cat3(&key, ":", &members[i].1);
        let ghost before = parts@;
        parts.push(part);
        assert(views(parts@) =~= views(before).push(part@));
        assert(part@ == want[i as int]);
        assert(want.take(i + 1) =~= want.take(i as int).push(want[i as int]));
        i = i + 1;
    }
    assert(want.take(want.len() as int) == want);
    let body = crate::text::join(&parts, ",");
    cat3("{", &body, "}")
}

pub fn write_array(items: &Vec<String>) -> (r: String)
    ensures
        r@ == array_text(views(items@)),
{
    let body = crate::text::join(items, ",");
    cat3("[", &body, "]")
}

/// The unsigned integer under a key.
pub open spec fn unsigned_member(j: JsonView, key: Seq<char>) -> Option<u64> {
    match member(j, key) {
        Some(t) => unsigned_value(t),
        None => None,
    }
}

pub fn get_unsigned(j: &Json, key: &str) -> (r: Option<u64>)
    ensures
        r == unsigned_member(j@, key@),
        member(j@, key@) is Some ==> reads_back(member(j@, key@)->0),
{
    match member_text(j, key) {
        Some(t) => as_unsigned(&t),
        None => None,
    }
}

/// The unsigned 32-bit integer under a key.
pub open spec fn small_member(j: JsonView, key: Seq<char>) -> Option<u32> {
    match unsigned_member(j, key) {
        Some(n) => if n <= u32::MAX {
            Some(n as u32)
        } else {
            None
        },
        None => None,
    }
}

pub fn get_small(j: &Json, key: &str) -> (r: Option<u32>)
    ensures
        r == small_member(j@, key@),
        member(j@, key@) is Some ==> reads_back(member(j@, key@)->0),
{
    match get_unsigned(j, key) {
        Some(n) => if n <= u32::MAX as u64 {
            Some(n as u32)
        } else {
            None
        },
        None => None,
    }
}

/// The optional string under a key: absent or `null` stands for none; another value for an error.
pub open spec fn opt_text_member(j: JsonView, key: Seq<char>) -> Option<Option<Seq<char>>> {
    match member(j, key) {
        None => Some(None),
        Some(t) => match json_of(t) {
            Ok(JsonView::Null) => Some(None),
            Ok(JsonView::Text(s)) => Some(Some(s)),
            _ => None,
        },
    }
}

pub open spec fn opt_opt_view(o: Option<Option<String>>) -> Option<Option<Seq<char>>> {
    match o {
        Some(x) => Some(opt_view(x)),
        None => None,
    }
}

pub fn get_opt_text(j: &Json, key: &str) -> (r: Option<Option<String>>)
    ensures
        opt_opt_view(r) == opt_text_member(j@, key@),
        member(j@, key@) is Some ==> reads_back(member(j@, key@)->0),
{
    match member_text(j, key) {
        None => Some(None),
        Some(t) => match parse_json(&t) {
            Ok(Json::Null) => Some(None),
            Ok(Json::Text(s)) => Some(Some(s)),
            _ => None,
        },
    }
}

/// The text that `serde_json` writes for the value that a JSON text stands for.
pub open spec fn settled(t: Seq<char>) -> Option<Seq<char>> {
    match json_of(array_text(seq![t])) {
        Ok(JsonView::Array(items)) => if items.len() == 1 {
            Some(items[0])
        } else {
            None
        },
        _ => None,
    }
}

/// The text that `serde_json` writes for the value that a JSON text stands for: it is read as the
/// item of an array.
pub fn settle(t: &str) -> (r: Option<String>)
    ensures
        opt_view(r) == settled(t@),
        written(t@, 8) ==> opt_view(r) == Some(t@),
{
    let mut items: Vec<String> = Vec::new();
    items.push(t.to_owned());
    let text = write_array(&items);
    proof {
        assert(views(items@) =~= seq![t@]);
        if written(t@, 8) {
            assert(items_written(seq![t@], 8));
        }
    }
    match parse_json(&text) {
        Ok(Json::Array(mut items)) => if items.len() == 1 {
            let ghost v = views(items@);
            assert(v[0] == items@[0]@);
            items.pop()
        } else {
            None
        },
        _ => None,
    }
}

/// The value under a key, as the JSON text that `serde_json` writes for it.
pub open spec fn value_member(j: JsonView, key: Seq<char>) -> Option<Seq<char>> {
    match member(j, key) {
        None => None,
        Some(t) => settled(t),
    }
}

pub fn get_value(j: &Json, key: &str) -> (r: Option<String>)
    ensures
        opt_view(r) == value_member(j@, key@),
        match member(j@, key@) {
            Some(t) => written(t, 8) ==> opt_view(r) == Some(t),
            None => true,
        },
{
    match member_text(j, key) {
        None => None,
        Some(t) => settle(&t),
    }
}

/// The optional value under a key, as the JSON text that `serde_json` writes for it: absent or
/// `null` stands for none.
pub open spec fn opt_value_member(j: JsonView, key: Seq<char>) -> Option<Option<Seq<char>>> {
    match member(j, key) {
        None => Some(None),
        Some(t) => match json_of(t) {
            Err(_) => None,
            Ok(JsonView::Null) => Some(None),
            Ok(_) => match settled(t) {
                Some(v) => Some(Some(v)),
                None => None,
            },
        },
    }
}

pub fn get_opt_value(j: &Json, key: &str) -> (r: Option<Option<String>>)
    ensures
        opt_opt_view(r) == opt_value_member(j@, key@),
        match member(j@, key@) {
            Some(t) => written(t, 8) && !(value_of(t) is Null) ==> opt_opt_view(r) == Some(Some(t)),
            None => true,
        },
{
    match member_text(j, key) {
        None => Some(None),
        Some(t) => match parse_json(&t) {
            Err(_) => None,
            Ok(Json::Null) => Some(None),
            Ok(_) => match settle(&t) {
                Some(v) => Some(Some(v)),
                None => None,
            },
        },
    }
}

/// The items of the array under a key, as they stand in it.
pub open spec fn array_member(j: JsonView, key: Seq<char>) -> Option<Seq<Seq<char>>> {
    match member(j, key) {
        None => None,
        Some(t) => items_of(t),
    }
}

pub fn get_array(j: &Json, key: &str) -> (r: Option<Vec<String>>)
    ensures
        match r {
            Some(v) => array_member(j@, key@) == Some(views(v@)),
            None => array_member(j@, key@) is None,
        },
        match member(j@, key@) {
            Some(t) => forall|a: Seq<Seq<char>>|
                items_written(a, 8) && t == #[trigger] array_text(a) ==> r is Some && views(r->0@) == a,
            None => true,
        },
{
    match member_text(j, key) {
        None => None,
        Some(t) => array_items(&t),
    }
}

pub open spec fn key_views(keys: Seq<&'static str>) -> Seq<Seq<char>> {
    keys.map_values(|k: &'static str| k@)
}

/// One of these keys comes twice.
pub open spec fn repeats(m: Seq<(Seq<char>, Seq<char>)>, keys: Seq<Seq<char>>) -> bool {
    exists|i: int, k: int|
        0 <= i < k < m.len() && (#[trigger] m[i]).0 == (#[trigger] m[k]).0 && keys.contains(m[i].0)
}

/// A record with these keys: an object in which none of them comes twice, or an array with one item
/// for each key, in order.
pub open spec fn record(j: JsonView, keys: Seq<Seq<char>>) -> Option<JsonView> {
    match j {
        JsonView::Object(m) => if repeats(m, keys) {
            None
        } else {
            Some(j)
        },
        JsonView::Array(items) => if items.len() == keys.len() {
            Some(JsonView::Object(Seq::new(keys.len(), |i: int| (keys[i], items[i]))))
        } else {
            None
        },
        _ => None,
    }
}

fn is_key(key: &str, keys: &Vec<&'static str>) -> (r: bool)
    ensures
        r == key_views(keys@).contains(key@),
{
    let mut i: usize = 0;
    while i < keys.len()
        invariant
            i <= keys@.len(),
            forall|n: int| 0 <= n < i ==> #[trigger] key_views(keys@)[n] != key@,
        decreases keys@.len() - i,
    {
        if same(keys[i], key) {
            assert(key_views(keys@)[i as int] == key@);
            return true;
        }
        i = i + 1;
    }
    false
}

/// The key of this member is one of the keys and comes again.
spec fn comes_again(m: Seq<(Seq<char>, Seq<char>)>, keys: Seq<Seq<char>>, i: int) -> bool {
    keys.contains(m[i].0) && exists|k: int| i < k < m.len() && (#[trigger] m[k]).0 == m[i].0
}

fn is_repeated(m: &Vec<(String, String)>, keys: &Vec<&'static str>, i: usize) -> (r: bool)
    requires
        i < m@.len(),
    ensures
        r == comes_again(member_views(m@), key_views(keys@), i as int),
{
    let ghost mv = member_views(m@);
    if !is_key(&m[i].0, keys) {
        return false;
    }
    let n: usize = m.len();
    let mut k: usize = i + 1;
    while k < n
        invariant
            i < k <= n,
            n == m@.len(),
            mv == member_views(m@),
            key_views(keys@).contains(mv[i as int].0),
            forall|n: int| i < n < k ==> (#[trigger] mv[n]).0 != mv[i as int].0,
        decreases n - k,
    {
        if same(&m[k].0, &m[i].0) {
            assert(mv[k as int].0 == mv[i as int].0);
            return true;
        }
        k = k + 1;
    }
    false
}

fn has_repeats(m: &Vec<(String, String)>, keys: &Vec<&'static str>) -> (r: bool)
    ensures
        r == repeats(member_views(m@), key_views(keys@)),
{
    let ghost mv = member_views(m@);
    let ghost kv = key_views(keys@);
    let mut i: usize = 0;
    while i < m.len()
        invariant
            i <= m@.len(),
            mv == member_views(m@),
            kv == key_views(keys@),
            forall|n: int| 0 <= n < i ==> !#[trigger] comes_again(mv, kv, n),
        decreases m@.len() - i,
    {
        if is_repeated(m, keys, i) {
            assert(repeats(mv, kv)) by {
                let k = choose|k: int| i < k < mv.len() && (#[trigger] mv[k]).0 == mv[i as int].0;
                assert(mv[i as int].0 == mv[k].0);
            }
            return true;
        }
        i = i + 1;
    }
    assert(!repeats(mv, kv)) by {
        if repeats(mv, kv) {
            let (i, k) = choose|i: int, k: int|
                0 <= i < k < mv.len() && (#[trigger] mv[i]).0 == (#[trigger] mv[k]).0 && kv.contains(
                    mv[i].0,
                );
            assert(comes_again(mv, kv, i));
        }
    }
    false
}

/// A record as an object. An object in which no key comes twice is one.
pub fn as_record(j: &Json, keys: &Vec<&'static str>) -> (r: Option<Json>)
    ensures
        match r {
            Some(o) => record(j@, key_views(keys@)) == Some(o@),
            None => record(j@, key_views(keys@)) is None,
        },
        forall|m: Seq<(Seq<char>, Seq<char>)>|
            #[trigger] members_written(m, 8) && j@ == JsonView::Object(m) ==> r is Some && r->0@ == j@,
{
    match j {
        Json::Object(m) => {
            let ghost mv = member_views(m@);
            if has_repeats(m, keys) {
                return None;
            }
            let mut out: Vec<(String, String)> = Vec::new();
            let mut i: usize = 0;
            while i < m.len()
                invariant
                    i <= m@.len(),
                    mv == member_views(m@),
                    member_views(out@) == mv.take(i as int),
                decreases m@.len() - i,
            {
                let ghost before = out@;
                out.push((m[i].0.clone(), m[i].1.clone()));
                assert(member_views(out@) =~= member_views(before).push(mv[i as int]));
                assert(mv.take(i + 1) =~= mv.take(i as int).push(mv[i as int]));
                i = i + 1;
            }
            assert(mv.take(mv.len() as int) == mv);
            Some(Json::Object(out))
        },
        Json::Array(items) => {
            if items.len() != keys.len() {
                return None;
            }
            let ghost want = Seq::new(
                key_views(keys@).len(),
                |i: int| (key_views(keys@)[i], views(items@)[i]),
            );
            let mut out: Vec<(String, String)> = Vec::new();
            let mut i: usize = 0;
            while i < items.len()
                invariant
                    i <= items@.len(),
                    items@.len() == keys@.len(),
                    want == Seq::new(
                        key_views(keys@).len(),
                        |i: int| (key_views(keys@)[i], views(items@)[i]),
                    ),
                    member_views(out@) == want.take(i as int),
                decreases items@.len() - i,
            {
                let ghost before = out@;
                out.push((keys[i].to_owned(), items[i].clone()));
                assert(member_views(out@) =~= member_views(before).push(want[i as int]));
                assert(want.take(i + 1) =~= want.take(i as int).push(want[i as int]));
                i = i + 1;
            }
            assert(want.take(want.len() as int) == want);
            Some(Json::Object(out))
        },
        _ => None,
    }
}

/// A member, where there is a text for it.
pub open spec fn opt_member(key: Seq<char>, text: Option<Seq<char>>) -> Seq<(Seq<char>, Seq<char>)> {
    match text {
        Some(t) => seq![(key, t)],
        None => Seq::<(Seq<char>, Seq<char>)>::empty(),
    }
}

/// The JSON text of an optional string.
pub open spec fn opt_quoted(o: Option<Seq<char>>) -> Option<Seq<char>> {
    match o {
        Some(s) => Some(quoted(s)),
        None => None,
    }
}

pub fn quote_opt(o: &Option<String>) -> (r: Option<String>)
    ensures
        opt_view(r) == opt_quoted(opt_view(*o)),
{
    match o {
        Some(s) => Some(quote(s)),
        None => None,
    }
}

/// Adds a member.
pub fn push_member(m: &mut Vec<(String, String)>, key: &str, text: String)
    ensures
        member_views(final(m)@) == member_views(old(m)@).push((key@, text@)),
{
    let ghost before = m@;
    m.push((key.to_owned(), text));
    assert(member_views(m@) =~= member_views(before).push((key@, text@)));
}

/// Adds a member, where there is a text for it.
pub fn push_opt(m: &mut Vec<(String, String)>, key: &str, text: Option<String>)
    ensures
        member_views(final(m)@) == member_views(old(m)@) + opt_member(key@, opt_view(text)),
{
    let ghost before = member_views(m@);
    match text {
        Some(t) => {
            push_member(m, key, t);
            assert(member_views(m@) =~= before + seq![(key@, t@)]);
        },
        None => {
            assert(member_views(m@) =~= before + Seq::<(Seq<char>, Seq<char>)>::empty());
        },
    }
}

pub open spec fn no_members() -> Seq<(Seq<char>, Seq<char>)> {
    Seq::<(Seq<char>, Seq<char>)>::empty()
}

/// No members yet.
pub fn new_members() -> (r: Vec<(String, String)>)
    ensures
        member_views(r@) == no_members(),
{
    let m: Vec<(String, String)> = Vec::new();
    assert(member_views(m@) =~= no_members());
    m
}

/// The JSON text of a truth value.
pub open spec fn bool_text(b: bool) -> Seq<char> {
    if b {
        "true"@
    } else {
        "false"@
    }
}

pub fn write_bool(b: bool) -> (r: String)
    ensures
        r@ == bool_text(b),
{
    if b {
        "true".to_owned()
    } else {
        "false".to_owned()
    }
}

/// The members of an object after another one.
pub proof fn lemma_member_push(m: Seq<(Seq<char>, Seq<char>)>, key: Seq<char>, text: Seq<char>, depth: nat)
    ensures
        forall|k: Seq<char>|
            #![trigger member_in(m.push((key, text)), k)]
            member_in(m.push((key, text)), k) == match member_in(m, k) {
                Some(t) => Some(t),
                None => if k == key {
                    Some(text)
                } else {
                    None
                },
            },
        members_written(m, depth) && written(text, depth) && member_in(m, key) is None
            ==> members_written(m.push((key, text)), depth),
{
    let p = m.push((key, text));
    assert forall|k: Seq<char>| #[trigger] member_in(p, k) == match member_in(m, k) {
        Some(t) => Some(t),
        None => if k == key {
            Some(text)
        } else {
            None
        },
    } by {
        lemma_member_of_push(m, key, text, k);
    }
    if members_written(m, depth) && written(text, depth) && member_in(m, key) is None {
        lemma_absent(m, key);
        assert forall|i: int, k: int| 0 <= i < k < p.len() implies (#[trigger] p[i]).0 != (
        #[trigger] p[k]).0 by {
            assert(p[i] == m[i]);
            if k < m.len() {
                assert(p[k] == m[k]);
            }
        }
        assert forall|i: int| 0 <= i < p.len() implies written((#[trigger] p[i]).1, depth) by {
            if i < m.len() {
                assert(p[i] == m[i]);
            }
        }
    }
}

proof fn lemma_member_of_push(
    m: Seq<(Seq<char>, Seq<char>)>,
    key: Seq<char>,
    text: Seq<char>,
    k: Seq<char>,
)
    ensures
        member_in(m.push((key, text)), k) == match member_in(m, k) {
            Some(t) => Some(t),
            None => if k == key {
                Some(text)
            } else {
                None
            },
        },
    decreases m.len(),
{
    let p = m.push((key, text));
    if m.len() == 0 {
        assert(p[0] == (key, text));
        assert(p.drop_first().len() == 0);
        assert(member_in(p.drop_first(), k) is None);
    } else {
        assert(p[0] == m[0]);
        assert(p.drop_first() =~= m.drop_first().push((key, text)));
        lemma_member_of_push(m.drop_first(), key, text, k);
    }
}

proof fn lemma_absent(m: Seq<(Seq<char>, Seq<char>)>, key: Seq<char>)
    requires
        member_in(m, key) is None,
    ensures
        forall|i: int| 0 <= i < m.len() ==> (#[trigger] m[i]).0 != key,
    decreases m.len(),
{
    if m.len() > 0 {
        lemma_absent(m.drop_first(), key);
        assert forall|i: int| 0 <= i < m.len() implies (#[trigger] m[i]).0 != key by {
            if i > 0 {
                assert(m.drop_first()[i - 1] == m[i]);
            }
        }
    }
}

/// The members of an object after an optional one.
pub proof fn lemma_member_opt(
    m: Seq<(Seq<char>, Seq<char>)>,
    key: Seq<char>,
    text: Option<Seq<char>>,
    depth: nat,
)
    ensures
        forall|k: Seq<char>|
            #![trigger member_in(m + opt_member(key, text), k)]
            member_in(m + opt_member(key, text), k) == match member_in(m, k) {
                Some(t) => Some(t),
                None => if k == key {
                    text
                } else {
                    None
                },
            },
        members_written(m, depth) && (text is Some ==> written(text->0, depth)) && member_in(
            m,
            key,
        ) is None ==> members_written(m + opt_member(key, text), depth),
{
    match text {
        Some(t) => {
            lemma_member_push(m, key, t, depth);
            assert(m + opt_member(key, text) =~= m.push((key, t)));
        },
        None => {
            assert(m + opt_member(key, text) =~= m);
        },
    }
}

// ---- Laws ----

/// The value is an object, and `t` is the text of the first of its members with this key.
pub open spec fn stands_under(j: JsonView, key: Seq<char>, t: Seq<char>) -> bool {
    j is Object && exists|i: int|
        0 <= i < j->Object_0.len() && #[trigger] j->Object_0[i] == (key, t) && forall|k: int|
            0 <= k < i ==> (#[trigger] j->Object_0[k]).0 != key
}

/// The value is an object, and the first of its members with this key is the string `s`.
pub open spec fn says_text(j: JsonView, key: Seq<char>, s: Seq<char>) -> bool {
    exists|t: Seq<char>| #[trigger]
        stands_under(j, key, t) && json_of(t) == Ok::<JsonView, Seq<char>>(JsonView::Text(s))
}

/// The value is an object, and the first of its members with this key is the number `n`.
pub open spec fn says_number(j: JsonView, key: Seq<char>, n: u64) -> bool {
    exists|t: Seq<char>| #[trigger]
        stands_under(j, key, t) && json_of(t) == Ok::<JsonView, Seq<char>>(JsonView::Unsigned(n))
}

proof fn lemma_member_in(m: Seq<(Seq<char>, Seq<char>)>, key: Seq<char>)
    ensures
        match member_in(m, key) {
            Some(t) => exists|i: int|
                0 <= i < m.len() && #[trigger] m[i] == (key, t) && forall|k: int|
                    0 <= k < i ==> (#[trigger] m[k]).0 != key,
            None => forall|i: int| 0 <= i < m.len() ==> (#[trigger] m[i]).0 != key,
        },
    decreases m.len(),
{
    if m.len() > 0 {
        if m[0].0 == key {
            assert(m[0] == (key, m[0].1));
        } else {
            let d = m.drop_first();
            lemma_member_in(d, key);
            match member_in(d, key) {
                Some(t) => {
                    let i = choose|i: int|
                        0 <= i < d.len() && #[trigger] d[i] == (key, t) && forall|k: int|
                            0 <= k < i ==> (#[trigger] d[k]).0 != key;
                    assert(m[i + 1] == (key, t));
                    assert forall|k: int| 0 <= k < i + 1 implies (#[trigger] m[k]).0 != key by {
                        if k > 0 {
                            assert(d[k - 1] == m[k]);
                        }
                    }
                },
                None => {
                    assert forall|i: int| 0 <= i < m.len() implies (#[trigger] m[i]).0 != key by {
                        if i > 0 {
                            assert(d[i - 1] == m[i]);
                        }
                    }
                },
            }
        }
    }
}

/// The member under a key is the first one with that key; there is none only where no member of an
/// object has it.
pub proof fn members_are_found_by_their_key(j: JsonView, key: Seq<char>)
    ensures
        forall|t: Seq<char>| #[trigger] stands_under(j, key, t) <==> member(j, key) == Some(t),
        j is Object ==> (member(j, key) is None <==> forall|i: int|
            0 <= i < j->Object_0.len() ==> (#[trigger] j->Object_0[i]).0 != key),
{
    if let JsonView::Object(m) = j {
        lemma_member_in(m, key);
        assert forall|t: Seq<char>| #[trigger] stands_under(j, key, t) implies member(j, key) == Some(
            t,
        ) by {
            let i = choose|i: int|
                0 <= i < m.len() && #[trigger] m[i] == (key, t) && forall|k: int|
                    0 <= k < i ==> (#[trigger] m[k]).0 != key;
            assert(m[i].0 == key);
            let u = member_in(m, key)->0;
            let h = choose|h: int|
                0 <= h < m.len() && #[trigger] m[h] == (key, u) && forall|k: int|
                    0 <= k < h ==> (#[trigger] m[k]).0 != key;
            assert(m[h].0 == key);
            assert(i == h);
        }
    }
}

/// The string under a key is the one that the first member with that key stands for; a member that
/// is no string counts as none.
pub proof fn strings_are_found_by_their_key(j: JsonView, key: Seq<char>)
    ensures
        forall|s: Seq<char>| #[trigger] says_text(j, key, s) <==> text_member(j, key) == Some(s),
{
    members_are_found_by_their_key(j, key);
    assert forall|s: Seq<char>| #[trigger] says_text(j, key, s) <==> text_member(j, key) == Some(s) by {
        if text_member(j, key) == Some(s) {
            assert(stands_under(j, key, member(j, key)->0));
        }
    }
}

/// The number under a key is the one that the first member with that key stands for.
pub proof fn numbers_are_found_by_their_key(j: JsonView, key: Seq<char>)
    ensures
        forall|n: u64| #[trigger] says_number(j, key, n) <==> unsigned_member(j, key) == Some(n),
        forall|n: u32|
            small_member(j, key) == Some(n) <==> #[trigger] says_number(j, key, n as u64),
{
    members_are_found_by_their_key(j, key);
    assert forall|n: u64| #[trigger] says_number(j, key, n) <==> unsigned_member(j, key) == Some(n) by {
        if unsigned_member(j, key) == Some(n) {
            assert(stands_under(j, key, member(j, key)->0));
        }
    }
}

/// An optional string is none where the member is missing or null, and the string where it is one;
/// anything else is refused.
pub proof fn optional_strings_may_be_missing(j: JsonView, key: Seq<char>)
    ensures
        forall|s: Seq<char>| says_text(j, key, s) ==> #[trigger] opt_text_member(j, key) == Some(Some(s)),
        member(j, key) is None ==> opt_text_member(j, key) == Some(None::<Seq<char>>),
        forall|t: Seq<char>| #[trigger]
            stands_under(j, key, t) ==> (opt_text_member(j, key) == Some(None::<Seq<char>>) <==> json_of(t)
                == Ok::<JsonView, Seq<char>>(JsonView::Null)),
        opt_text_member(j, key) is None ==> member(j, key) is Some && !(exists|s: Seq<char>|
            says_text(j, key, s)),
{
    members_are_found_by_their_key(j, key);
    strings_are_found_by_their_key(j, key);
}

/// A record is never read out of an object that repeats one of its keys, nor out of an array of
/// another length; the items of an array stand under the keys in order.
pub proof fn records_are_unambiguous(j: JsonView, keys: Seq<Seq<char>>)
    ensures
        match record(j, keys) {
            Some(o) => o is Object && match j {
                JsonView::Object(m) => o == j && forall|i: int, k: int|
                    0 <= i < k < m.len() && keys.contains((#[trigger] m[i]).0) ==> m[i].0 != (
                    #[trigger] m[k]).0,
                JsonView::Array(a) => a.len() == keys.len() && o->Object_0.len() == keys.len()
                    && forall|i: int|
                    0 <= i < keys.len() ==> #[trigger] o->Object_0[i] == (keys[i], a[i]),
                _ => false,
            },
            None => match j {
                JsonView::Object(m) => exists|i: int, k: int|
                    0 <= i < k < m.len() && keys.contains((#[trigger] m[i]).0) && m[i].0 == (
                    #[trigger] m[k]).0,
                JsonView::Array(a) => a.len() != keys.len(),
                _ => true,
            },
        },
{
}

/// A text in quotes: quotes, backslashes and control characters are escaped, everything else stands
/// as it is, in order.
pub proof fn texts_are_quoted(s: Seq<char>, c: char)
    ensures
        quoted(s).len() >= 2 && quoted(s)[0] == '"' && quoted(s).last() == '"',
        quoted(Seq::<char>::empty()) == seq!['"', '"'],
        quoted(s.push(c)) == quoted(s).drop_last() + escaped_char(c) + seq!['"'],
        escaped_char('"') == seq!['\\', '"'],
        escaped_char('\\') == seq!['\\', '\\'],
        escaped_char('\n') == seq!['\\', 'n'],
        escaped_char('\r') == seq!['\\', 'r'],
        escaped_char('\t') == seq!['\\', 't'],
        escaped_char('\u{8}') == seq!['\\', 'b'],
        escaped_char('\u{c}') == seq!['\\', 'f'],
        ' ' <= c && c != '"' && c != '\\' ==> escaped_char(c) == seq![c],
        ' ' > c && c != '\n' && c != '\r' && c != '\t' && c != '\u{8}' && c != '\u{c}'
            ==> escaped_char(c).len() == 6 && escaped_char(c)[0] == '\\' && escaped_char(c)[1] == 'u'
            && escaped_char(c)[2] == '0' && escaped_char(c)[3] == '0' && escaped_char(c)[4] == hex_digit(
            c as int / 16,
        ) && escaped_char(c)[5] == hex_digit(c as int % 16),
{
    assert(s.push(c).drop_last() =~= s);
    assert(quoted(s.push(c)) =~= quoted(s).drop_last() + escaped_char(c) + seq!['"']);
    assert(quoted(Seq::<char>::empty()) =~= seq!['"', '"']);
}

/// Hexadecimal digits count from nought to fifteen, with small letters.
pub proof fn hexadecimal_digits(n: int)
    ensures
        0 <= n <= 9 ==> hex_digit(n) as int == '0' as int + n,
        10 <= n <= 15 ==> hex_digit(n) as int == 'a' as int + n - 10,
{
    reveal_strlit("0123456789abcdef");
}

/// An object is its members in order, with commas between them, each as its key in quotes, a colon
/// and its text.
pub proof fn objects_are_their_members(m: Seq<(Seq<char>, Seq<char>)>, key: Seq<char>, t: Seq<char>)
    ensures
        object_text(Seq::<(Seq<char>, Seq<char>)>::empty()) == "{}"@,
        object_text(seq![(key, t)]) == "{"@ + quoted(key) + ":"@ + t + "}"@,
        m.len() > 0 ==> object_text(m.push((key, t))) == object_text(m).drop_last() + ","@ + quoted(
            key,
        ) + ":"@ + t + "}"@,
{
    reveal_strlit("{");
    reveal_strlit("}");
    reveal_strlit("{}");
    let f = |e: (Seq<char>, Seq<char>)| quoted(e.0) + ":"@ + e.1;
    let none = Seq::<(Seq<char>, Seq<char>)>::empty();
    assert(none.map_values(f) =~= Seq::<Seq<char>>::empty());
    assert(object_text(none) =~= "{}"@);
    let one = seq![(key, t)];
    assert(one.map_values(f) =~= seq![f((key, t))]);
    assert(object_text(one) =~= "{"@ + quoted(key) + ":"@ + t + "}"@);
    if m.len() > 0 {
        assert(m.push((key, t)).map_values(f) =~= m.map_values(f).push(f((key, t))));
        assert(m.map_values(f).push(f((key, t))).drop_last() =~= m.map_values(f));
        assert(object_text(m.push((key, t))) =~= object_text(m).drop_last() + ","@ + quoted(key)
            + ":"@ + t + "}"@);
    }
}

/// A list is its items in order, with commas between them.
pub proof fn lists_are_their_items(a: Seq<Seq<char>>, t: Seq<char>)
    ensures
        array_text(Seq::<Seq<char>>::empty()) == "[]"@,
        array_text(seq![t]) == "["@ + t + "]"@,
        a.len() > 0 ==> array_text(a.push(t)) == array_text(a).drop_last() + ","@ + t + "]"@,
{
    reveal_strlit("[");
    reveal_strlit("]");
    reveal_strlit("[]");
    assert(array_text(Seq::<Seq<char>>::empty()) =~= "[]"@);
    assert(a.push(t).drop_last() =~= a);
    if a.len() > 0 {
        assert(array_text(a.push(t)) =~= array_text(a).drop_last() + ","@ + t + "]"@);
    }
}

/// An optional member is written where it is given, and left out where it is not.
pub proof fn optional_members_are_left_out(key: Seq<char>, t: Seq<char>)
    ensures
        opt_member(key, Some(t)) == seq![(key, t)],
        opt_member(key, None).len() == 0,
        opt_quoted(Some(t)) == Some(quoted(t)),
        opt_quoted(None) is None,
        no_members().len() == 0,
{
}

/// A member's value is the text that its list of one is read as; a missing member has none, and
/// null counts as missing where a value is optional.
pub proof fn values_stand_under_their_key(j: JsonView, key: Seq<char>, t: Seq<char>, v: Seq<char>)
    requires
        stands_under(j, key, t),
    ensures
        json_of(array_text(seq![t])) == Ok::<JsonView, Seq<char>>(JsonView::Array(seq![v]))
            ==> value_member(j, key) == Some(v),
        value_member(j, key) is Some ==> json_of(array_text(seq![t])) is Ok,
        json_of(t) == Ok::<JsonView, Seq<char>>(JsonView::Null) ==> opt_value_member(j, key) == Some(
            None::<Seq<char>>,
        ),
        json_of(t) is Err ==> opt_value_member(j, key) is None,
        json_of(t) is Ok && !(json_of(t)->Ok_0 is Null) && json_of(array_text(seq![t])) == Ok::<
            JsonView,
            Seq<char>,
        >(JsonView::Array(seq![v])) ==> opt_value_member(j, key) == Some(Some(v)),
        array_member(j, key) == items_of(t),
{
    members_are_found_by_their_key(j, key);
    assert(seq![v][0] == v);
}

/// A text that cannot be read counts as null; one that can is the value it stands for.
pub proof fn unreadable_texts_are_null(t: Seq<char>)
    ensures
        json_of(t) is Ok ==> value_of(t) == json_of(t)->Ok_0,
        json_of(t) is Err ==> value_of(t) is Null,
        match json_of(t) {
            Ok(JsonView::Text(s)) => text_value(t) == Some(s),
            _ => text_value(t) is None,
        },
        match json_of(t) {
            Ok(JsonView::Unsigned(n)) => unsigned_value(t) == Some(n),
            _ => unsigned_value(t) is None,
        },
        bool_text(true) == "true"@ && bool_text(false) == "false"@,
{
}

} // verus!
