//! Text primitives over `Seq<char>`: trimming, splitting, searching, decimal numbers.
use vstd::prelude::*;
use vstd::utf8::{encode_utf8, valid_utf8};

verus! {

/// `String::push` of std appends the given character to the end of the string.
pub assume_specification[ String::push ](s: &mut String, c: char)
    ensures
        final(s)@ == old(s)@.push(c),
;

/// What `str::to_lowercase` of std returns: the lowercase equivalent of a text by the
/// Unicode rules.
pub uninterp spec fn lowercase(s: Seq<char>) -> Seq<char>;

/// `str::to_lowercase` of std; its result is known by the name `lowercase` only.
#[verifier::external_body]
pub(crate) fn to_lowercase(s: &str) -> (r: String)
    ensures
        r@ == lowercase(s@),
{
    s.to_lowercase()
}

/// What `String::from_utf8_lossy` of std makes of a sequence of bytes.
pub uninterp spec fn lossy_text(bytes: Seq<u8>) -> Seq<char>;

/// `String::from_utf8_lossy` of std. Bytes that are valid UTF-8 are kept as they are; of others the
/// result is known by the name `lossy_text` only.
#[verifier::external_body]
pub(crate) fn from_utf8_lossy(bytes: &[u8]) -> (r: String)
    ensures
        r@ == lossy_text(bytes@),
        valid_utf8(bytes@) ==> encode_utf8(r@) == bytes@,
{
    String::from_utf8_lossy(bytes).into_owned()
}

/// `std::str::from_utf8`: the text whose UTF-8 form the bytes are, where they are valid UTF-8.
#[verifier::external_body]
pub(crate) fn from_utf8(bytes: &[u8]) -> (r: Option<String>)
    ensures
        match r {
            Some(s) => valid_utf8(bytes@) && encode_utf8(s@) == bytes@,
            None => !valid_utf8(bytes@),
        },
{
    std::str::from_utf8(bytes).ok().map(|s| s.to_string())
}

/// The characters with the Unicode property `White_Space`.
pub open spec fn white_space(c: char) -> bool {
    ('\u{9}' <= c <= '\u{d}') || c == ' ' || c == '\u{85}' || c == '\u{a0}' || c == '\u{1680}' || (
    '\u{2000}' <= c <= '\u{200a}') || c == '\u{2028}' || c == '\u{2029}' || c == '\u{202f}' || c
        == '\u{205f}' || c == '\u{3000}'
}

pub fn is_white_space(c: char) -> (r: bool)
    ensures
        r == white_space(c),
{
    ('\u{9}' <= c && c <= '\u{d}') || c == ' ' || c == '\u{85}' || c == '\u{a0}' || c == '\u{1680}'
        || ('\u{2000}' <= c && c <= '\u{200a}') || c == '\u{2028}' || c == '\u{2029}' || c
        == '\u{202f}' || c == '\u{205f}' || c == '\u{3000}'
}

/// A text without the white space at its two ends.
pub open spec fn trimmed(s: Seq<char>) -> Seq<char>
    decreases s.len(),
{
    if s.len() == 0 {
        s
    } else if white_space(s[0]) {
        trimmed(s.drop_first())
    } else if white_space(s.last()) {
        trimmed(s.drop_last())
    } else {
        s
    }
}

/// The pieces of a text between the occurrences of a separator; always at least one.
pub open spec fn split_at_char(s: Seq<char>, sep: char) -> Seq<Seq<char>>
    decreases s.len(),
{
    if s.len() == 0 {
        seq![Seq::<char>::empty()]
    } else {
        let r = split_at_char(s.drop_last(), sep);
        if s.last() == sep {
            r.push(Seq::<char>::empty())
        } else {
            r.drop_last().push(r.last().push(s.last()))
        }
    }
}

/// The maximal runs of characters that are not white space, in order.
pub open spec fn words(s: Seq<char>) -> Seq<Seq<char>>
    decreases s.len(),
{
    if s.len() == 0 {
        Seq::<Seq<char>>::empty()
    } else {
        let r = words(s.drop_last());
        if white_space(s.last()) {
            r
        } else if s.len() >= 2 && !white_space(s[s.len() - 2]) {
            r.drop_last().push(r.last().push(s.last()))
        } else {
            r.push(seq![s.last()])
        }
    }
}

/// `part` stands in `s` at some place.
pub open spec fn holds_text(s: Seq<char>, part: Seq<char>) -> bool {
    exists|i: int|
        0 <= i <= s.len() - part.len() && #[trigger] s.subrange(i, i + part.len()) == part
}

/// The first position of `c` in `s`, or the length of `s` where there is none.
pub open spec fn first_at(s: Seq<char>, c: char) -> int
    decreases s.len(),
{
    if s.len() == 0 {
        0
    } else if s[0] == c {
        0
    } else {
        1 + first_at(s.drop_first(), c)
    }
}

/// The texts joined, with `sep` between each two.
pub open spec fn joined(parts: Seq<Seq<char>>, sep: Seq<char>) -> Seq<char>
    decreases parts.len(),
{
    if parts.len() == 0 {
        Seq::<char>::empty()
    } else if parts.len() == 1 {
        parts[0]
    } else {
        joined(parts.drop_last(), sep) + sep + parts.last()
    }
}

/// The views of a list of strings.
pub open spec fn views(v: Seq<String>) -> Seq<Seq<char>> {
    v.map_values(|s: String| s@)
}

/// The view of an optional string.
pub open spec fn opt_view(o: Option<String>) -> Option<Seq<char>> {
    match o {
        Some(s) => Some(s@),
        None => None,
    }
}

/// The optional text, or the empty text.
pub open spec fn or_empty(o: Option<String>) -> Seq<char> {
    match o {
        Some(s) => s@,
        None => Seq::<char>::empty(),
    }
}

pub fn chars_of(s: &str) -> (v: Vec<char>)
    ensures
        v@ == s@,
{
    let mut v: Vec<char> = Vec::new();
    for c in it: s.chars()
        invariant
            it.seq() == s@,
            v@ == s@.take(it.index() as int),
    {
        v.push(c);
    }
    assert(s@.take(s@.len() as int) == s@);
    v
}

pub fn text_of(v: &Vec<char>, from: usize, to: usize) -> (r: String)
    requires
        from <= to <= v@.len(),
    ensures
        r@ == v@.subrange(from as int, to as int),
{
    let mut r = String::new();
    let mut i: usize = from;
    while i < to
        invariant
            from <= i <= to <= v@.len(),
            r@ == v@.subrange(from as int, i as int),
        decreases to - i,
    {
        r.push(v[i]);
        i = i + 1;
        assert(v@.subrange(from as int, i as int) == v@.subrange(from as int, i - 1).push(
            v@[i - 1],
        ));
    }
    r
}

/// Text equality.
pub fn same(a: &str, b: &str) -> (r: bool)
    ensures
        r == (a@ == b@),
{
    a.to_owned() == b.to_owned()
}

pub fn cat2(a: &str, b: &str) -> (r: String)
    ensures
        r@ == a@ + b@,
{
    let mut r = a.to_owned();
    r.append(b);
    r
}

pub fn cat3(a: &str, b: &str, c: &str) -> (r: String)
    ensures
        r@ == a@ + b@ + c@,
{
    let mut r = cat2(a, b);
    r.append(c);
    r
}

pub fn cat4(a: &str, b: &str, c: &str, d: &str) -> (r: String)
    ensures
        r@ == a@ + b@ + c@ + d@,
{
    let mut r = cat3(a, b, c);
    r.append(d);
    r
}

pub fn cat5(a: &str, b: &str, c: &str, d: &str, e: &str) -> (r: String)
    ensures
        r@ == a@ + b@ + c@ + d@ + e@,
{
    let mut r = cat4(a, b, c, d);
    r.append(e);
    r
}

/// The text without the white space at its two ends.
pub fn trim(s: &str) -> (r: String)
    ensures
        r@ == trimmed(s@),
{
    let v = chars_of(s);
    let mut lo: usize = 0;
    let mut hi: usize = v.len();
    assert(v@.subrange(0, v@.len() as int) == v@);
    while lo < hi && is_white_space(v[lo])
        invariant
            lo <= hi <= v@.len(),
            trimmed(v@) == trimmed(v@.subrange(lo as int, hi as int)),
        decreases hi - lo,
    {
        assert(v@.subrange(lo as int, hi as int).drop_first() == v@.subrange(lo + 1, hi as int));
        lo = lo + 1;
    }
    while lo < hi && is_white_space(v[hi - 1])
        invariant
            lo <= hi <= v@.len(),
            lo < hi ==> !white_space(v@[lo as int]),
            trimmed(v@) == trimmed(v@.subrange(lo as int, hi as int)),
        decreases hi - lo,
    {
        assert(v@.subrange(lo as int, hi as int).drop_last() == v@.subrange(lo as int, hi - 1));
        hi = hi - 1;
    }
    text_of(&v, lo, hi)
}

proof fn lemma_split_nonempty(s: Seq<char>, sep: char)
    ensures
        split_at_char(s, sep).len() >= 1,
    decreases s.len(),
{
    if s.len() > 0 {
        lemma_split_nonempty(s.drop_last(), sep);
    }
}

/// The pieces between the occurrences of `sep`.
pub fn split_char(s: &str, sep: char) -> (r: Vec<String>)
    ensures
        views(r@) == split_at_char(s@, sep),
        r@.len() >= 1,
{
    let v = chars_of(s);
    let mut out: Vec<String> = Vec::new();
    let mut cur = String::new();
    let mut i: usize = 0;
    assert(views(out@).push(cur@) =~= split_at_char(v@.take(0), sep));
    while i < v.len()
        invariant
            i <= v@.len(),
            views(out@).push(cur@) == split_at_char(v@.take(i as int), sep),
        decreases v@.len() - i,
    {
        let ghost before = views(out@).push(cur@);
        assert(v@.take(i + 1).drop_last() == v@.take(i as int));
        assert(before.drop_last() == views(out@));
        if v[i] == sep {
            let ghost old_out = out@;
            out.push(cur);
            cur = String::new();
            assert(views(out@) =~= before);
        } else {
            cur.push(v[i]);
        }
        i = i + 1;
    }
    assert(v@.take(v@.len() as int) == v@);
    let ghost all = views(out@).push(cur@);
    out.push(cur);
    assert(views(out@) =~= all);
    out
}

proof fn lemma_words_open(s: Seq<char>)
    requires
        s.len() > 0,
        !white_space(s.last()),
    ensures
        words(s).len() > 0,
    decreases s.len(),
{
    if s.len() >= 2 && !white_space(s[s.len() - 2]) {
        lemma_words_open(s.drop_last());
    }
}

/// The runs of characters that are not white space.
pub fn split_words(s: &str) -> (r: Vec<String>)
    ensures
        views(r@) == words(s@),
{
    let v = chars_of(s);
    let mut out: Vec<String> = Vec::new();
    let mut cur = String::new();
    let mut open: bool = false;
    let mut i: usize = 0;
    assert(views(out@) =~= words(v@.take(0)));
    while i < v.len()
        invariant
            i <= v@.len(),
            open == (i > 0 && !white_space(v@[i - 1])),
            !open ==> cur@ == Seq::<char>::empty(),
            words(v@.take(i as int)) == if open {
                views(out@).push(cur@)
            } else {
                views(out@)
            },
        decreases v@.len() - i,
    {
        assert(v@.take(i + 1).drop_last() == v@.take(i as int));
        assert(v@.take(i + 1).last() == v@[i as int]);
        let ghost before = words(v@.take(i as int));
        if is_white_space(v[i]) {
            if open {
                out.push(cur);
                cur = String::new();
                open = false;
                assert(views(out@) =~= before);
            }
        } else {
            let ghost held = cur@;
            cur.push(v[i]);
            if open {
                assert(before.drop_last() == views(out@));
                assert(before.last() == held);
            } else {
                assert(cur@ =~= seq![v@[i as int]]);
            }
            open = true;
        }
        i = i + 1;
    }
    assert(v@.take(v@.len() as int) == v@);
    if open {
        let ghost all = views(out@).push(cur@);
        out.push(cur);
        assert(views(out@) =~= all);
    }
    out
}

/// Whether `s` begins with `prefix`.
pub fn starts_with(s: &str, prefix: &str) -> (r: bool)
    ensures
        r == prefix@.is_prefix_of(s@),
{
    let a = chars_of(s);
    let p = chars_of(prefix);
    if p.len() > a.len() {
        return false;
    }
    let mut i: usize = 0;
    while i < p.len()
        invariant
            i <= p@.len() <= a@.len(),
            a@ == s@,
            p@ == prefix@,
            p@.take(i as int) == a@.take(i as int),
        decreases p@.len() - i,
    {
        if p[i] != a[i] {
            assert(p@[i as int] != a@.subrange(0, p@.len() as int)[i as int]);
            return false;
        }
        assert(p@.take(i + 1) == p@.take(i as int).push(p@[i as int]));
        assert(a@.take(i + 1) == a@.take(i as int).push(a@[i as int]));
        i = i + 1;
    }
    assert(p@.take(p@.len() as int) == p@);
    true
}

/// `s` without the prefix that it begins with.
pub fn after_prefix(s: &str, prefix: &str) -> (r: String)
    requires
        prefix@.is_prefix_of(s@),
    ensures
        r@ == s@.skip(prefix@.len() as int),
{
    let v = chars_of(s);
    let n: usize = chars_of(prefix).len();
    let r = text_of(&v, n, v.len());
    r
}

/// Whether `part` stands in `s`.
pub fn contains(s: &str, part: &str) -> (r: bool)
    ensures
        r == holds_text(s@, part@),
{
    let a = chars_of(s);
    let p = chars_of(part);
    if p.len() > a.len() {
        return false;
    }
    let mut i: usize = 0;
    let last: usize = a.len() - p.len();
    while i <= last
        invariant
            i <= last + 1,
            last == a@.len() - p@.len(),
            a@.len() <= usize::MAX,
            a@ == s@,
            p@ == part@,
            forall|k: int| 0 <= k < i ==> #[trigger] a@.subrange(k, k + p@.len()) != p@,
        decreases last + 1 - i,
    {
        let piece = text_of(&a, i, i + p.len());
        if same(&piece, part) {
            assert(s@.subrange(i as int, i + part@.len()) == part@);
            return true;
        }
        if i == last {
            return false;
        }
        i = i + 1;
    }
    false
}

/// The position of the first `c` in `s`.
pub fn find_char(s: &Vec<char>, c: char) -> (r: usize)
    ensures
        r == first_at(s@, c),
        r <= s@.len(),
        r < s@.len() ==> s@[r as int] == c,
{
    let mut i: usize = 0;
    assert(s@.skip(0) == s@);
    while i < s.len() && s[i] != c
        invariant
            i <= s@.len(),
            first_at(s@, c) == i + first_at(s@.skip(i as int), c),
        decreases s@.len() - i,
    {
        assert(s@.skip(i as int).drop_first() == s@.skip(i + 1));
        i = i + 1;
    }
    i
}

/// The two sides of the first `c` in `s`, where there is one.
pub open spec fn cut_at(s: Seq<char>, c: char) -> Option<(Seq<char>, Seq<char>)> {
    let i = first_at(s, c);
    if i < s.len() {
        Some((s.take(i), s.skip(i + 1)))
    } else {
        None
    }
}

pub fn cut(s: &str, c: char) -> (r: Option<(String, String)>)
    ensures
        match r {
            Some(p) => cut_at(s@, c) == Some((p.0@, p.1@)),
            None => cut_at(s@, c) is None,
        },
{
    let v = chars_of(s);
    let i: usize = find_char(&v, c);
    if i < v.len() {
        Some((text_of(&v, 0, i), text_of(&v, i + 1, v.len())))
    } else {
        None
    }
}

/// The texts joined, with `sep` between each two.
pub fn join(parts: &Vec<String>, sep: &str) -> (r: String)
    ensures
        r@ == joined(views(parts@), sep@),
{
    let mut r = String::new();
    let mut i: usize = 0;
    while i < parts.len()
        invariant
            i <= parts@.len(),
            r@ == joined(views(parts@).take(i as int), sep@),
        decreases parts@.len() - i,
    {
        let ghost vs = views(parts@);
        assert(vs.take(i + 1).drop_last() == vs.take(i as int));
        if i > 0 {
            r.append(sep);
        }
        r.append(parts[i].as_str());
        if i == 0 {
            assert(r@ =~= vs.take(1)[0]);
        }
        i = i + 1;
    }
    assert(views(parts@).take(parts@.len() as int) == views(parts@));
    r
}

/// A copy of a list of strings.
pub fn copy_strings(v: &Vec<String>) -> (r: Vec<String>)
    ensures
        r@ == v@,
{
    let mut r: Vec<String> = Vec::new();
    let mut i: usize = 0;
    while i < v.len()
        invariant
            i <= v@.len(),
            r@ == v@.take(i as int),
        decreases v@.len() - i,
    {
        r.push(v[i].clone());
        i = i + 1;
    }
    assert(v@.take(v@.len() as int) == v@);
    r
}

/// A copy of an optional string.
pub fn copy_opt(o: &Option<String>) -> (r: Option<String>)
    ensures
        r == *o,
{
    match o {
        Some(s) => Some(s.clone()),
        None => None,
    }
}

/// The optional text, or the empty text.
pub fn text_or_empty(o: &Option<String>) -> (r: String)
    ensures
        r@ == or_empty(*o),
{
    match o {
        Some(s) => s.clone(),
        None => String::new(),
    }
}

// ---- Laws ----

proof fn lemma_words_join(a: Seq<char>, c: char, b: Seq<char>)
    requires
        white_space(c),
    ensures
        words(a.push(c) + b) == words(a) + words(b),
    decreases b.len(),
{
    let s = a.push(c) + b;
    if b.len() == 0 {
        assert(s =~= a.push(c));
        assert(s.drop_last() =~= a);
        assert(words(a) + words(b) =~= words(a));
    } else {
        let d = b.drop_last();
        assert(s.drop_last() =~= a.push(c) + d);
        lemma_words_join(a, c, d);
        if b.len() >= 2 {
            assert(s[s.len() - 2] == b[b.len() - 2]);
        } else {
            assert(s[s.len() - 2] == c);
        }
        if b.len() >= 2 && !white_space(b.last()) && !white_space(b[b.len() - 2]) {
            lemma_words_open(d);
        }
        assert(words(s) =~= words(a) + words(b));
    }
}

proof fn lemma_one_word(w: Seq<char>)
    requires
        w.len() > 0,
        forall|i: int| 0 <= i < w.len() ==> !white_space(#[trigger] w[i]),
    ensures
        words(w) == seq![w],
    decreases w.len(),
{
    let d = w.drop_last();
    if d.len() > 0 {
        lemma_one_word(d);
        assert(d.push(w.last()) =~= w);
        assert(words(w) =~= seq![w]);
    } else {
        assert(words(d) =~= Seq::<Seq<char>>::empty());
        assert(seq![w.last()] =~= w);
        assert(words(w) =~= seq![w]);
    }
}

/// White space parts words: the words of two texts with white space between them are the words of
/// the first and then those of the second, a text without white space is one word, and the empty
/// text has none.
pub proof fn white_space_parts_words(a: Seq<char>, c: char, b: Seq<char>)
    ensures
        white_space(c) ==> words(a.push(c) + b) == words(a) + words(b),
        a.len() > 0 && (forall|i: int| 0 <= i < a.len() ==> !white_space(#[trigger] a[i]))
            ==> words(a) == seq![a],
        words(Seq::<char>::empty()).len() == 0,
{
    if white_space(c) {
        lemma_words_join(a, c, b);
    }
    if a.len() > 0 && (forall|i: int| 0 <= i < a.len() ==> !white_space(#[trigger] a[i])) {
        lemma_one_word(a);
    }
}

/// No word is empty, and none holds white space.
pub proof fn words_hold_no_white_space(s: Seq<char>)
    ensures
        forall|i: int| 0 <= i < words(s).len() ==> (#[trigger] words(s)[i]).len() > 0,
        forall|i: int, k: int|
            0 <= i < words(s).len() && 0 <= k < words(s)[i].len() ==> !white_space(
                #[trigger] words(s)[i][k],
            ),
    decreases s.len(),
{
    if s.len() > 0 {
        words_hold_no_white_space(s.drop_last());
        if s.len() >= 2 && !white_space(s[s.len() - 2]) {
            lemma_words_open(s.drop_last());
        }
    }
}

/// White space is the characters that Unicode calls so, by their numbers.
pub proof fn white_space_is_blank(c: char)
    ensures
        white_space(c) <==> {
            let n = c as int;
            9 <= n <= 13 || n == 32 || n == 0x85 || n == 0xa0 || n == 0x1680 || 0x2000 <= n <= 0x200a
                || n == 0x2028 || n == 0x2029 || n == 0x202f || n == 0x205f || n == 0x3000
        },
{
}

proof fn lemma_split_join(a: Seq<char>, sep: char, b: Seq<char>)
    ensures
        split_at_char(a.push(sep) + b, sep) == split_at_char(a, sep) + split_at_char(b, sep),
    decreases b.len(),
{
    let s = a.push(sep) + b;
    if b.len() == 0 {
        assert(s =~= a.push(sep));
        assert(s.drop_last() =~= a);
        assert(split_at_char(s, sep) =~= split_at_char(a, sep) + split_at_char(b, sep));
    } else {
        let d = b.drop_last();
        assert(s.drop_last() =~= a.push(sep) + d);
        lemma_split_join(a, sep, d);
        lemma_split_nonempty(d, sep);
        lemma_split_nonempty(a, sep);
        assert(split_at_char(s, sep) =~= split_at_char(a, sep) + split_at_char(b, sep));
    }
}

proof fn lemma_split_one(s: Seq<char>, sep: char)
    requires
        !s.contains(sep),
    ensures
        split_at_char(s, sep) == seq![s],
    decreases s.len(),
{
    if s.len() > 0 {
        let d = s.drop_last();
        assert(!d.contains(sep)) by {
            if d.contains(sep) {
                let i = choose|i: int| 0 <= i < d.len() && d[i] == sep;
                assert(s[i] == sep);
            }
        }
        assert(s.contains(s.last()));
        lemma_split_one(d, sep);
        assert(d.push(s.last()) =~= s);
        assert(split_at_char(s, sep) =~= seq![s]);
    } else {
        assert(s =~= Seq::<char>::empty());
    }
}

/// A text without the separator is one piece; the pieces of two texts with the separator between
/// them are the pieces of the first and then those of the second, empty ones among them.
pub proof fn separators_part_pieces(a: Seq<char>, sep: char, b: Seq<char>)
    ensures
        split_at_char(a.push(sep) + b, sep) == split_at_char(a, sep) + split_at_char(b, sep),
        !a.contains(sep) ==> split_at_char(a, sep) == seq![a],
{
    lemma_split_join(a, sep, b);
    if !a.contains(sep) {
        lemma_split_one(a, sep);
    }
}

/// Joining the pieces with the separator gives the text back.
pub proof fn pieces_join_again(s: Seq<char>, sep: char)
    ensures
        joined(split_at_char(s, sep), seq![sep]) == s,
    decreases s.len(),
{
    let p = split_at_char(s, sep);
    if s.len() == 0 {
        assert(p[0] =~= s);
    } else {
        let d = s.drop_last();
        let q = split_at_char(d, sep);
        pieces_join_again(d, sep);
        lemma_split_nonempty(d, sep);
        if s.last() == sep {
            assert(p.drop_last() =~= q);
            assert(joined(p, seq![sep]) =~= s);
        } else {
            assert(p.drop_last() =~= q.drop_last());
            assert(p.last() =~= q.last().push(s.last()));
            if q.len() == 1 {
                assert(joined(p, seq![sep]) =~= s);
            } else {
                assert(joined(p, seq![sep]) =~= joined(q, seq![sep]).push(s.last()));
                assert(d.push(s.last()) =~= s);
            }
        }
    }
}

/// Trimming takes white space off both ends, and nothing else.
pub proof fn trimming_keeps_the_middle(s: Seq<char>) -> (ends: (Seq<char>, Seq<char>))
    ensures
        s == ends.0 + trimmed(s) + ends.1,
        forall|i: int| 0 <= i < ends.0.len() ==> white_space(#[trigger] ends.0[i]),
        forall|i: int| 0 <= i < ends.1.len() ==> white_space(#[trigger] ends.1[i]),
        trimmed(s).len() > 0 ==> !white_space(trimmed(s)[0]) && !white_space(trimmed(s).last()),
    decreases s.len(),
{
    let none = Seq::<char>::empty();
    if s.len() == 0 {
        assert(s =~= none + s + none);
        (none, none)
    } else if white_space(s[0]) {
        let e = trimming_keeps_the_middle(s.drop_first());
        let front = seq![s[0]] + e.0;
        assert(s =~= seq![s[0]] + s.drop_first());
        assert(s =~= front + trimmed(s) + e.1);
        (front, e.1)
    } else if white_space(s.last()) {
        let e = trimming_keeps_the_middle(s.drop_last());
        let back = e.1.push(s.last());
        assert(s =~= s.drop_last().push(s.last()));
        assert(s =~= e.0 + trimmed(s) + back);
        (e.0, back)
    } else {
        assert(s =~= none + s + none);
        (none, none)
    }
}

proof fn lemma_first_at(s: Seq<char>, c: char)
    ensures
        0 <= first_at(s, c) <= s.len(),
        first_at(s, c) < s.len() ==> s[first_at(s, c)] == c,
        forall|i: int| 0 <= i < first_at(s, c) ==> #[trigger] s[i] != c,
    decreases s.len(),
{
    if s.len() > 0 && s[0] != c {
        let d = s.drop_first();
        lemma_first_at(d, c);
        assert forall|i: int| 0 <= i < first_at(s, c) implies #[trigger] s[i] != c by {
            if i > 0 {
                assert(d[i - 1] == s[i]);
            }
        }
    }
}

/// A cut parts a text at the first such character, which is dropped; there is none only where the
/// text does not hold the character.
pub proof fn cuts_are_at_the_first(s: Seq<char>, c: char)
    ensures
        match cut_at(s, c) {
            Some(p) => s == p.0.push(c) + p.1 && !p.0.contains(c),
            None => !s.contains(c),
        },
{
    lemma_first_at(s, c);
    let i = first_at(s, c);
    if i < s.len() {
        assert(s =~= s.take(i).push(c) + s.skip(i + 1));
    }
}

/// The separator stands between each two parts, and nowhere else.
pub proof fn joining_adds_a_part(parts: Seq<Seq<char>>, sep: Seq<char>, more: Seq<char>)
    ensures
        joined(Seq::<Seq<char>>::empty(), sep).len() == 0,
        joined(seq![more], sep) == more,
        parts.len() > 0 ==> joined(parts.push(more), sep) == joined(parts, sep) + sep + more,
{
    assert(parts.push(more).drop_last() =~= parts);
}

} // verus!
