//! Strings seen as sequences of characters, and the text operations that the
//! rest of the library is built on.

use vstd::prelude::*;

verus! {

/// `String::push` appends one character.
pub assume_specification[ String::push ](s: &mut String, c: char)
    ensures
        final(s)@ == old(s)@.push(c),
;

/// `String::push_str` appends all characters of another string.
pub assume_specification[ String::push_str ](s: &mut String, other: &str)
    ensures
        final(s)@ == old(s)@ + other@,
;

// ---------------------------------------------------------------------------
// Conversions
// ---------------------------------------------------------------------------

/// The texts held by a sequence of strings.
pub open spec fn views(v: Seq<String>) -> Seq<Seq<char>> {
    Seq::new(v.len(), |i: int| v[i]@)
}

/// The texts held by a sequence of lists of strings.
pub open spec fn nested_views(v: Seq<Vec<String>>) -> Seq<Seq<Seq<char>>> {
    Seq::new(v.len(), |i: int| views(v[i]@))
}

/// The text held by an optional string.
pub open spec fn opt_view(o: Option<String>) -> Option<Seq<char>> {
    match o {
        Some(s) => Some(s@),
        None => None,
    }
}

/// The characters of a string, in order.
pub fn chars_of(s: &str) -> (r: Vec<char>)
    ensures
        r@ == s@,
{
    let mut out: Vec<char> = Vec::new();
    for c in it: s.chars()
        invariant
            out@ == it.seq().take(it.index()),
            it.seq() == s@,
    {
        out.push(c);
        assert(it.seq().take(it.index() + 1) =~= it.seq().take(it.index()).push(c));
    }
    assert(out@ =~= s@);
    out
}

/// The string made of the characters of `chars` from `from` up to `to`.
pub fn string_of_range(chars: &Vec<char>, from: usize, to: usize) -> (r: String)
    requires
        from <= to <= chars@.len(),
    ensures
        r@ == chars@.subrange(from as int, to as int),
{
    let mut out = String::new();
    let mut i: usize = from;
    while i < to
        invariant
            from <= i <= to <= chars@.len(),
            out@ == chars@.subrange(from as int, i as int),
        decreases to - i,
    {
        out.push(chars[i]);
        assert(chars@.subrange(from as int, i + 1) =~= chars@.subrange(from as int, i as int).push(
            chars@[i as int],
        ));
        i += 1;
    }
    out
}

/// The string made of the given characters.
pub fn string_of(chars: &Vec<char>) -> (r: String)
    ensures
        r@ == chars@,
{
    let r = string_of_range(chars, 0, chars.len());
    assert(r@ =~= chars@);
    r
}

/// Whether two strings hold the same text.
pub fn same(a: &str, b: &str) -> (r: bool)
    ensures
        r == (a@ == b@),
{
    a.to_owned() == b.to_owned()
}

/// A copy of a list of strings.
pub fn copy_strings(v: &[String]) -> (r: Vec<String>)
    ensures
        views(r@) == views(v@),
        r@ == v@,
{
    let mut out: Vec<String> = Vec::new();
    let mut i: usize = 0;
    while i < v.len()
        invariant
            i <= v@.len(),
            out@ == v@.take(i as int),
        decreases v@.len() - i,
    {
        let s = v[i].clone();
        out.push(s);
        assert(v@.take(i + 1) =~= v@.take(i as int).push(v@[i as int]));
        i += 1;
    }
    assert(out@ =~= v@);
    out
}

/// A copy of the strings of `v` from `from` up to `to`.
pub fn copy_range(v: &[String], from: usize, to: usize) -> (r: Vec<String>)
    requires
        from <= to <= v@.len(),
    ensures
        r@ == v@.subrange(from as int, to as int),
        views(r@) == views(v@).subrange(from as int, to as int),
{
    let mut out: Vec<String> = Vec::new();
    let mut i: usize = from;
    while i < to
        invariant
            from <= i <= to <= v@.len(),
            out@ == v@.subrange(from as int, i as int),
        decreases to - i,
    {
        let s = v[i].clone();
        out.push(s);
        assert(v@.subrange(from as int, i + 1) =~= v@.subrange(from as int, i as int).push(
            v@[i as int],
        ));
        i += 1;
    }
    assert(views(out@) =~= views(v@).subrange(from as int, to as int));
    out
}

/// A copy of an optional string.
pub fn copy_opt(o: &Option<String>) -> (r: Option<String>)
    ensures
        r == *o,
{
    match o {
        Some(s) => Some(s.clone()),
        None => None,
    }
}

/// Whether `v` holds the text `s`.
pub fn contains_text(v: &Vec<&'static str>, s: &str) -> (r: bool)
    ensures
        r == exists|i: int| 0 <= i < v@.len() && (#[trigger] v@[i])@ == s@,
{
    let mut i: usize = 0;
    while i < v.len()
        invariant
            i <= v@.len(),
            forall|k: int| 0 <= k < i ==> (#[trigger] v@[k])@ != s@,
        decreases v@.len() - i,
    {
        if same(v[i], s) {
            return true;
        }
        i += 1;
    }
    false
}

/// Whether `v` holds a string with the text `s`.
pub fn contains_string(v: &[String], s: &str) -> (r: bool)
    ensures
        r == views(v@).contains(s@),
{
    let mut i: usize = 0;
    while i < v.len()
        invariant
            i <= v@.len(),
            forall|k: int| 0 <= k < i ==> views(v@)[k] != s@,
        decreases v@.len() - i,
    {
        if same(&v[i], s) {
            assert(views(v@)[i as int] == s@);
            return true;
        }
        i += 1;
    }
    assert(!views(v@).contains(s@)) by {
        if views(v@).contains(s@) {
            let k = choose|k: int| 0 <= k < views(v@).len() && views(v@)[k] == s@;
            assert(views(v@)[k] != s@);
        }
    }
    false
}

// ---------------------------------------------------------------------------
// White space
// ---------------------------------------------------------------------------

/// The characters with the Unicode property `White_Space`.
pub open spec fn is_white(c: char) -> bool {
    let n = c as u32;
    ||| 0x9 <= n <= 0xd
    ||| n == 0x20
    ||| n == 0x85
    ||| n == 0xa0
    ||| n == 0x1680
    ||| 0x2000 <= n <= 0x200a
    ||| n == 0x2028
    ||| n == 0x2029
    ||| n == 0x202f
    ||| n == 0x205f
    ||| n == 0x3000
}

/// Whether a character is white space.
pub fn is_whitespace(c: char) -> (r: bool)
    ensures
        r == is_white(c),
{
    let n: u32 = c as u32;
    (0x9 <= n && n <= 0xd) || n == 0x20 || n == 0x85 || n == 0xa0 || n == 0x1680 || (0x2000 <= n
        && n <= 0x200a) || n == 0x2028 || n == 0x2029 || n == 0x202f || n == 0x205f || n == 0x3000
}

/// `s` without the white space at its end.
pub open spec fn trimmed_end(s: Seq<char>) -> Seq<char>
    decreases s.len(),
{
    if s.len() > 0 && is_white(s.last()) {
        trimmed_end(s.drop_last())
    } else {
        s
    }
}

/// `s` without the white space at its start.
pub open spec fn trimmed_start(s: Seq<char>) -> Seq<char>
    decreases s.len(),
{
    if s.len() > 0 && is_white(s[0]) {
        trimmed_start(s.drop_first())
    } else {
        s
    }
}

/// `s` without the white space at both ends.
pub open spec fn trimmed(s: Seq<char>) -> Seq<char> {
    trimmed_start(trimmed_end(s))
}

/// Whether `core` is what is left of `s` from `a` on when white space is dropped from both
/// ends: all around it is white space, and it neither begins nor ends with some.
pub open spec fn is_core(s: Seq<char>, core: Seq<char>, a: int) -> bool {
    &&& 0 <= a
    &&& a + core.len() <= s.len()
    &&& core == s.subrange(a, a + core.len())
    &&& forall|i: int|
        (0 <= i < a || a + core.len() <= i < s.len()) ==> is_white(#[trigger] s[i])
    &&& core.len() > 0 ==> !is_white(core[0]) && !is_white(core.last())
}

/// White space at the start is dropped, and nothing else.
proof fn trimmed_start_is(s: Seq<char>)
    ensures
        trimmed_start(s).len() <= s.len(),
        trimmed_start(s) == s.skip(s.len() - trimmed_start(s).len()),
        forall|i: int| 0 <= i < s.len() - trimmed_start(s).len() ==> is_white(#[trigger] s[i]),
        trimmed_start(s).len() > 0 ==> !is_white(trimmed_start(s)[0]),
    decreases s.len(),
{
    if s.len() > 0 && is_white(s[0]) {
        let rest = s.drop_first();
        trimmed_start_is(rest);
        let t = trimmed_start(s);
        assert(t =~= s.skip(s.len() - t.len()));
        assert forall|i: int| 0 <= i < s.len() - t.len() implies is_white(#[trigger] s[i]) by {
            if i > 0 {
                assert(is_white(rest[i - 1]));
            }
        }
    } else {
        assert(s.skip(0) =~= s);
    }
}

/// White space at the end is dropped, and nothing else.
proof fn trimmed_end_is(s: Seq<char>)
    ensures
        trimmed_end(s).len() <= s.len(),
        trimmed_end(s) == s.take(trimmed_end(s).len() as int),
        forall|i: int| trimmed_end(s).len() <= i < s.len() ==> is_white(#[trigger] s[i]),
        trimmed_end(s).len() > 0 ==> !is_white(trimmed_end(s).last()),
    decreases s.len(),
{
    if s.len() > 0 && is_white(s.last()) {
        let front = s.drop_last();
        trimmed_end_is(front);
        let t = trimmed_end(s);
        assert(t =~= s.take(t.len() as int));
        assert forall|i: int| t.len() <= i < s.len() implies is_white(#[trigger] s[i]) by {
            if i < front.len() {
                assert(is_white(front[i]));
            }
        }
    } else {
        assert(s.take(s.len() as int) =~= s);
    }
}

/// Trimming takes away white space at the ends of a text, all of it and nothing else.
pub proof fn law_trimming_takes_white_space_only(s: Seq<char>)
    ensures
        trimmed_end(s).len() <= s.len(),
        trimmed_end(s) == s.take(trimmed_end(s).len() as int),
        forall|i: int| trimmed_end(s).len() <= i < s.len() ==> is_white(#[trigger] s[i]),
        trimmed_end(s).len() > 0 ==> !is_white(trimmed_end(s).last()),
        exists|a: int| #[trigger] is_core(s, trimmed(s), a),
{
    trimmed_end_is(s);
    let e = trimmed_end(s);
    trimmed_start_is(e);
    let t = trimmed(s);
    let a = e.len() - t.len();
    assert(t =~= s.subrange(a, a + t.len()));
    assert forall|i: int| (0 <= i < a || a + t.len() <= i < s.len()) implies is_white(
        #[trigger] s[i],
    ) by {
        if i < a {
            assert(is_white(e[i]));
        }
    }
    if t.len() > 0 {
        assert(t.last() == e.last());
    }
    assert(is_core(s, t, a));
}

/// A text has one core only: what is left of `s` is fixed by what trimming does.
pub proof fn core_is_unique(s: Seq<char>, core: Seq<char>, a: int)
    requires
        is_core(s, core, a),
    ensures
        trimmed(s) == core,
{
    law_trimming_takes_white_space_only(s);
    let t = trimmed(s);
    let b = choose|b: int| #[trigger] is_core(s, t, b);
    if core.len() == 0 || t.len() == 0 {
        if core.len() > 0 {
            assert(is_white(s[a]));
        }
        if t.len() > 0 {
            assert(is_white(s[b]));
        }
        assert(t =~= core);
    } else {
        assert(core[0] == s[a] && t[0] == s[b]);
        assert(core.last() == s[a + core.len() - 1] && t.last() == s[b + t.len() - 1]);
        if a < b {
            assert(is_white(s[a]));
        }
        if b < a {
            assert(is_white(s[b]));
        }
        if core.len() < t.len() {
            assert(is_white(s[b + t.len() - 1]));
        }
        if t.len() < core.len() {
            assert(is_white(s[a + core.len() - 1]));
        }
    }
}

/// Which ASCII characters are white space: the space, and those from the tab to the
/// carriage return.
pub proof fn law_ascii_white_space(c: char)
    requires
        c as u32 <= 127,
    ensures
        is_white(c) <==> c == ' ' || c == '\n' || c == '\t' || c == '\r' || c as u32 == 11 || c
            as u32 == 12,
{
}

/// Drops white space from the end of a string.
pub fn trim_end(s: &str) -> (r: String)
    ensures
        r@ == trimmed_end(s@),
{
    let chars = chars_of(s);
    let mut n: usize = chars.len();
    assert(s@.take(n as int) =~= s@);
    while n > 0 && is_whitespace(chars[n - 1])
        invariant
            n <= chars@.len(),
            chars@ == s@,
            trimmed_end(s@.take(n as int)) == trimmed_end(s@),
        decreases n,
    {
        assert(s@.take(n as int).drop_last() =~= s@.take(n - 1));
        n -= 1;
    }
    let r = string_of_range(&chars, 0, n);
    assert(r@ =~= s@.take(n as int));
    r
}

/// Drops white space from the start of a string.
pub fn trim_start(s: &str) -> (r: String)
    ensures
        r@ == trimmed_start(s@),
{
    let chars = chars_of(s);
    let mut i: usize = 0;
    assert(s@.skip(0) =~= s@);
    while i < chars.len() && is_whitespace(chars[i])
        invariant
            i <= chars@.len(),
            chars@ == s@,
            trimmed_start(s@.skip(i as int)) == trimmed_start(s@),
        decreases chars@.len() - i,
    {
        assert(s@.skip(i as int).drop_first() =~= s@.skip(i + 1));
        i += 1;
    }
    let r = string_of_range(&chars, i, chars.len());
    assert(r@ =~= s@.skip(i as int));
    r
}

/// Drops white space from both ends of a string.
pub fn trim(s: &str) -> (r: String)
    ensures
        r@ == trimmed(s@),
{
    let t = trim_end(s);
    trim_start(&t)
}

// ---------------------------------------------------------------------------
// Prefixes and suffixes
// ---------------------------------------------------------------------------

/// Whether `s` begins with `p`.
pub open spec fn begins(s: Seq<char>, p: Seq<char>) -> bool {
    p.len() <= s.len() && s.take(p.len() as int) == p
}

/// Whether `s` ends with `p`.
pub open spec fn ends(s: Seq<char>, p: Seq<char>) -> bool {
    p.len() <= s.len() && s.skip(s.len() - p.len()) == p
}

/// Whether the characters of `p` stand in `s` from position `at` on.
pub open spec fn stands_at(s: Seq<char>, p: Seq<char>, at: int) -> bool {
    0 <= at && at + p.len() <= s.len() && s.subrange(at, at + p.len()) == p
}

/// Compares the characters of `s` from `at` on with those of `p`.
pub fn matches_at(s: &Vec<char>, p: &Vec<char>, at: usize) -> (r: bool)
    ensures
        r == stands_at(s@, p@, at as int),
{
    if at > s.len() || s.len() - at < p.len() {
        return false;
    }
    let mut i: usize = 0;
    while i < p.len()
        invariant
            i <= p@.len(),
            at + p@.len() <= s@.len() <= usize::MAX,
            forall|k: int| 0 <= k < i ==> s@[at + k] == p@[k],
        decreases p@.len() - i,
    {
        if s[at + i] != p[i] {
            assert(s@.subrange(at as int, at + p@.len())[i as int] != p@[i as int]);
            return false;
        }
        i += 1;
    }
    assert(s@.subrange(at as int, at + p@.len()) =~= p@);
    true
}

/// Whether the text `s` begins with the text `p`.
pub fn starts_with(s: &str, p: &str) -> (r: bool)
    ensures
        r == begins(s@, p@),
{
    let sc = chars_of(s);
    let pc = chars_of(p);
    proof {
        if p@.len() <= s@.len() {
            assert(s@.subrange(0, p@.len() as int) =~= s@.take(p@.len() as int));
        }
    }
    matches_at(&sc, &pc, 0)
}

/// Whether the text `s` ends with the text `p`.
pub fn ends_with(s: &str, p: &str) -> (r: bool)
    ensures
        r == ends(s@, p@),
{
    let sc = chars_of(s);
    let pc = chars_of(p);
    if pc.len() > sc.len() {
        return false;
    }
    proof {
        assert(s@.subrange(s@.len() - p@.len(), s@.len() as int) =~= s@.skip(
            s@.len() - p@.len(),
        ));
    }
    matches_at(&sc, &pc, sc.len() - pc.len())
}

/// What follows the prefix `p` in `s`, where `s` begins with it.
pub open spec fn after_prefix(s: Seq<char>, p: Seq<char>) -> Option<Seq<char>> {
    if begins(s, p) {
        Some(s.skip(p.len() as int))
    } else {
        None
    }
}

/// What follows the prefix `p` in `s`, where `s` begins with it.
pub fn strip_prefix(s: &str, p: &str) -> (r: Option<String>)
    ensures
        opt_view(r) == after_prefix(s@, p@),
{
    if starts_with(s, p) {
        let sc = chars_of(s);
        let pc = chars_of(p);
        let rest = string_of_range(&sc, pc.len(), sc.len());
        assert(rest@ =~= s@.skip(p@.len() as int));
        Some(rest)
    } else {
        None
    }
}

/// Whether the text `p` stands anywhere in `s`.
pub open spec fn occurs(s: Seq<char>, p: Seq<char>) -> bool {
    exists|at: int| stands_at(s, p, at)
}

/// Whether the text `p` stands anywhere in `s`.
pub fn contains(s: &str, p: &str) -> (r: bool)
    ensures
        r == occurs(s@, p@),
{
    let sc = chars_of(s);
    let pc = chars_of(p);
    if pc.len() > sc.len() {
        return false;
    }
    let end: usize = sc.len() - pc.len();
    let mut at: usize = 0;
    while at < end
        invariant
            sc@ == s@,
            pc@ == p@,
            at <= end,
            forall|k: int| 0 <= k < at ==> !stands_at(s@, p@, k),
        decreases end - at,
    {
        if matches_at(&sc, &pc, at) {
            return true;
        }
        at += 1;
    }
    matches_at(&sc, &pc, end)
}

/// Whether a text holds a character.
pub fn has_char(s: &str, c: char) -> (r: bool)
    ensures
        r == s@.contains(c),
{
    let chars = chars_of(s);
    let mut i: usize = 0;
    while i < chars.len()
        invariant
            chars@ == s@,
            i <= s@.len(),
            forall|k: int| 0 <= k < i ==> s@[k] != c,
        decreases s@.len() - i,
    {
        if chars[i] == c {
            assert(s@[i as int] == c);
            return true;
        }
        i += 1;
    }
    false
}

// ---------------------------------------------------------------------------
// Bytes
// ---------------------------------------------------------------------------

/// The text of bytes, with a mark where they are no text.
pub uninterp spec fn lossy_text(bytes: Seq<u8>) -> Seq<char>;

/// Calls `String::from_utf8_lossy`. The result depends on the bytes alone, and bytes
/// that are valid UTF-8 give the text that they encode.
#[verifier::external_body]
pub(crate) fn decode_lossy(bytes: &[u8]) -> (r: String)
    ensures
        r@ == lossy_text(bytes@),
        vstd::utf8::valid_utf8(bytes@) ==> r@ == vstd::utf8::decode_utf8(bytes@),
{
    String::from_utf8_lossy(bytes).into_owned()
}

// ---------------------------------------------------------------------------
// Case
// ---------------------------------------------------------------------------

/// What `str::to_lowercase` makes of a text.
pub uninterp spec fn lowercase_of(s: Seq<char>) -> Seq<char>;

/// Whether a text holds ASCII characters only.
pub open spec fn is_ascii_text(s: Seq<char>) -> bool {
    forall|i: int| 0 <= i < s.len() ==> (#[trigger] s[i]) as u32 <= 127
}

/// `str::to_lowercase` gives the lower-case form of a text, which is a function
/// of the text alone. In ASCII text the letters `A` to `Z` become `a` to `z`. Which
/// form each other letter has is left unsaid.
pub assume_specification[ str::to_lowercase ](s: &str) -> (r: String)
    ensures
        r@ == lowercase_of(s@),
        is_ascii_text(s@) ==> r@ == ascii_lowered(s@),
;

/// The lower-case form of an ASCII letter; other characters stay as they are.
pub open spec fn ascii_lower(c: char) -> char {
    if 'A' <= c <= 'Z' {
        (c as u32 + 32) as char
    } else {
        c
    }
}

/// A text with its ASCII letters in lower case.
pub open spec fn ascii_lowered(s: Seq<char>) -> Seq<char> {
    s.map_values(|c: char| ascii_lower(c))
}

/// The lower-case form of an ASCII letter.
fn ascii_lower_char(c: char) -> (r: char)
    ensures
        r == ascii_lower(c),
{
    if 'A' <= c && c <= 'Z' {
        (c as u8 + 32) as char
    } else {
        c
    }
}

/// Puts the ASCII letters of a text into lower case.
pub fn to_ascii_lowercase(s: &str) -> (r: String)
    ensures
        r@ == ascii_lowered(s@),
{
    let chars = chars_of(s);
    let mut out = String::new();
    let mut i: usize = 0;
    while i < chars.len()
        invariant
            i <= chars@.len(),
            chars@ == s@,
            out@ == ascii_lowered(s@.take(i as int)),
        decreases chars@.len() - i,
    {
        out.push(ascii_lower_char(chars[i]));
        assert(ascii_lowered(s@.take(i + 1)) =~= ascii_lowered(s@.take(i as int)).push(
            ascii_lower(s@[i as int]),
        ));
        i += 1;
    }
    assert(s@.take(s@.len() as int) =~= s@);
    out
}

// ---------------------------------------------------------------------------
// Splitting and joining
// ---------------------------------------------------------------------------

/// The pieces of `s` between the characters `c`. There is one more piece than
/// there are such characters.
pub open spec fn pieces(s: Seq<char>, c: char) -> Seq<Seq<char>>
    decreases s.len(),
{
    if s.len() == 0 {
        seq![Seq::<char>::empty()]
    } else {
        let before = pieces(s.drop_last(), c);
        if s.last() == c {
            before.push(Seq::<char>::empty())
        } else {
            before.update(before.len() - 1, before.last().push(s.last()))
        }
    }
}

/// There is always at least one piece.
pub proof fn pieces_nonempty(s: Seq<char>, c: char)
    ensures
        pieces(s, c).len() >= 1,
    decreases s.len(),
{
    if s.len() > 0 {
        pieces_nonempty(s.drop_last(), c);
    }
}

/// No piece of a text holds the character that it was split at.
pub proof fn pieces_lack(s: Seq<char>, c: char)
    ensures
        forall|i: int| 0 <= i < pieces(s, c).len() ==> !(#[trigger] pieces(s, c)[i]).contains(c),
    decreases s.len(),
{
    if s.len() > 0 {
        pieces_lack(s.drop_last(), c);
        pieces_nonempty(s.drop_last(), c);
        let before = pieces(s.drop_last(), c);
        if s.last() != c {
            let last = before.last().push(s.last());
            assert(!before[before.len() - 1].contains(c));
            assert(!last.contains(c)) by {
                if last.contains(c) {
                    let k = choose|k: int| 0 <= k < last.len() && last[k] == c;
                    assert(before.last()[k] == c);
                }
            }
        }
    }
}

/// A text without the character stays in one piece.
pub proof fn pieces_of_plain(s: Seq<char>, c: char)
    requires
        !s.contains(c),
    ensures
        pieces(s, c) == seq![s],
    decreases s.len(),
{
    if s.len() > 0 {
        let front = s.drop_last();
        assert(!front.contains(c)) by {
            if front.contains(c) {
                let k = choose|k: int| 0 <= k < front.len() && front[k] == c;
                assert(s[k] == c);
            }
        }
        pieces_of_plain(front, c);
        assert(s[s.len() - 1] != c);
        assert(front.push(s.last()) =~= s);
        assert(pieces(s, c) =~= seq![s]);
    } else {
        assert(s =~= Seq::<char>::empty());
    }
}

/// What follows an added separator is a last piece of its own.
pub proof fn pieces_of_extended(s: Seq<char>, tail: Seq<char>, c: char)
    requires
        !tail.contains(c),
    ensures
        pieces(s.push(c) + tail, c) == pieces(s, c).push(tail),
    decreases tail.len(),
{
    let whole = s.push(c) + tail;
    if tail.len() == 0 {
        assert(whole =~= s.push(c));
        assert(whole.drop_last() =~= s);
        assert(tail =~= Seq::<char>::empty());
        assert(pieces(whole, c) =~= pieces(s, c).push(tail));
    } else {
        let front = tail.drop_last();
        assert(!front.contains(c)) by {
            if front.contains(c) {
                let k = choose|k: int| 0 <= k < front.len() && front[k] == c;
                assert(tail[k] == c);
            }
        }
        pieces_of_extended(s, front, c);
        assert(whole.drop_last() =~= s.push(c) + front);
        assert(tail[tail.len() - 1] != c);
        assert(front.push(tail.last()) =~= tail);
        assert(whole.last() == tail.last());
        pieces_nonempty(s, c);
        assert(pieces(whole, c) =~= pieces(s, c).push(tail));
    }
}

/// Splits a string at each character `c`.
pub fn split_on(s: &str, c: char) -> (r: Vec<String>)
    ensures
        views(r@) == pieces(s@, c),
        r@.len() >= 1,
{
    let chars = chars_of(s);
    let mut out: Vec<String> = Vec::new();
    let mut cur = String::new();
    let mut i: usize = 0;
    assert(s@.take(0) =~= Seq::<char>::empty());
    assert(views(out@).push(cur@) =~= pieces(s@.take(0), c));
    while i < chars.len()
        invariant
            chars@ == s@,
            i <= s@.len(),
            views(out@).push(cur@) == pieces(s@.take(i as int), c),
        decreases s@.len() - i,
    {
        let ghost before = views(out@).push(cur@);
        assert(s@.take(i + 1).drop_last() =~= s@.take(i as int));
        let ch = chars[i];
        if ch == c {
            out.push(cur);
            cur = String::new();
            assert(views(out@) =~= before);
        } else {
            cur.push(ch);
            assert(views(out@).push(cur@) =~= before.update(
                before.len() - 1,
                before.last().push(ch),
            ));
        }
        i += 1;
    }
    assert(s@.take(s@.len() as int) =~= s@);
    let ghost last = cur@;
    let ghost front = views(out@);
    out.push(cur);
    assert(views(out@) =~= front.push(last));
    out
}

/// A line without the carriage return at its end, if there is one.
pub open spec fn without_cr(s: Seq<char>) -> Seq<char> {
    if s.len() > 0 && s.last() == '\r' {
        s.drop_last()
    } else {
        s
    }
}

/// The lines of a text. A line ends with a line feed, which may follow a
/// carriage return; neither belongs to the line. What stands behind the last
/// line feed is a line only if it is not empty.
pub open spec fn lines_of(s: Seq<char>) -> Seq<Seq<char>> {
    let ps = pieces(s, '\n');
    let ended = Seq::new((ps.len() - 1) as nat, |i: int| without_cr(ps[i]));
    if ps.last().len() == 0 {
        ended
    } else {
        ended.push(ps.last())
    }
}

/// The lines of a text, as strings.
pub fn lines(s: &str) -> (r: Vec<String>)
    ensures
        views(r@) == lines_of(s@),
{
    let ps = split_on(s, '\n');
    let mut out: Vec<String> = Vec::new();
    let n: usize = ps.len() - 1;
    let ghost all = pieces(s@, '\n');
    let mut i: usize = 0;
    while i < n
        invariant
            i <= n,
            n == ps@.len() - 1,
            views(ps@) == all,
            views(out@) == Seq::new(i as nat, |k: int| without_cr(all[k])),
        decreases n - i,
    {
        let chars = chars_of(&ps[i]);
        assert(all[i as int] == ps@[i as int]@);
        let m: usize = chars.len();
        let ghost before = views(out@);
        if m > 0 && chars[m - 1] == '\r' {
            let line = string_of_range(&chars, 0, m - 1);
            assert(line@ =~= without_cr(all[i as int]));
            out.push(line);
        } else {
            let line = string_of(&chars);
            out.push(line);
        }
        assert(views(out@) =~= before.push(without_cr(all[i as int])));
        assert(views(out@) =~= Seq::new((i + 1) as nat, |k: int| without_cr(all[k])));
        i += 1;
    }
    assert(all.last() == ps@[n as int]@);
    let last = ps[n].clone();
    if !last.as_str().is_empty() {
        let ghost before = views(out@);
        out.push(last);
        assert(views(out@) =~= before.push(all.last()));
    }
    out
}

/// The texts of `parts` with `sep` between each two.
pub open spec fn joined(parts: Seq<Seq<char>>, sep: Seq<char>) -> Seq<char>
    decreases parts.len(),
{
    if parts.len() == 0 {
        Seq::empty()
    } else if parts.len() == 1 {
        parts[0]
    } else {
        joined(parts.drop_last(), sep) + sep + parts.last()
    }
}

/// Joins strings with a separator.
pub fn join(parts: &[String], sep: &str) -> (r: String)
    ensures
        r@ == joined(views(parts@), sep@),
{
    let mut out = String::new();
    let mut i: usize = 0;
    let ghost all = views(parts@);
    while i < parts.len()
        invariant
            i <= parts@.len(),
            all == views(parts@),
            out@ == joined(all.take(i as int), sep@),
        decreases parts@.len() - i,
    {
        if i > 0 {
            out.push_str(sep);
        }
        out.push_str(&parts[i]);
        assert(all.take(i + 1).drop_last() =~= all.take(i as int));
        assert(all.take(i + 1).last() == parts@[i as int]@);
        if i == 0 {
            assert(out@ =~= all.take(1)[0]);
        }
        i += 1;
    }
    assert(all.take(all.len() as int) =~= all);
    out
}

/// Joining the pieces of a text with the character that it was split at gives
/// the text back.
pub proof fn law_join_undoes_split(s: Seq<char>, c: char)
    ensures
        joined(pieces(s, c), seq![c]) == s,
    decreases s.len(),
{
    if s.len() == 0 {
        assert(joined(pieces(s, c), seq![c]) =~= s);
    } else {
        let front = s.drop_last();
        law_join_undoes_split(front, c);
        pieces_nonempty(front, c);
        let before = pieces(front, c);
        let now = pieces(s, c);
        let c_last = s.last();
        if s.last() == c {
            assert(now.drop_last() =~= before);
            assert(joined(now, seq![c]) =~= s);
        } else {
            assert(now.drop_last() =~= before.drop_last());
            assert(now.last() == before.last().push(c_last));
            if before.len() == 1 {
                assert(now[0] == before[0].push(c_last));
            }
            assert(joined(now, seq![c]) =~= joined(before, seq![c]).push(c_last));
            assert(front.push(c_last) =~= s);
        }
    }
}

/// Splitting what was joined gives the parts back, where none of them holds the character.
pub proof fn law_split_undoes_join(parts: Seq<Seq<char>>, c: char)
    requires
        parts.len() > 0,
        forall|i: int| 0 <= i < parts.len() ==> !(#[trigger] parts[i]).contains(c),
    ensures
        pieces(joined(parts, seq![c]), c) == parts,
    decreases parts.len(),
{
    let front = parts.drop_last();
    let last = parts[parts.len() - 1];
    if parts.len() == 1 {
        pieces_of_plain(last, c);
        assert(pieces(last, c) =~= parts);
    } else {
        assert forall|i: int| 0 <= i < front.len() implies !(#[trigger] front[i]).contains(c) by {
            assert(front[i] == parts[i]);
        }
        law_split_undoes_join(front, c);
        let base = joined(front, seq![c]);
        pieces_of_extended(base, last, c);
        assert(joined(parts, seq![c]) =~= base.push(c) + last);
        assert(front.push(last) =~= parts);
    }
}

/// Whether a text can be a line: it holds no line feed and does not end in a carriage return.
pub open spec fn is_line(s: Seq<char>) -> bool {
    !s.contains('\n') && (s.len() > 0 ==> s.last() != '\r')
}

/// Lines with line feeds between them are read back, with or without a line feed at the end.
pub proof fn law_lines_are_read_back(lines: Seq<Seq<char>>)
    requires
        lines.len() > 0,
        forall|i: int| 0 <= i < lines.len() ==> is_line(#[trigger] lines[i]),
    ensures
        lines.last().len() > 0 ==> lines_of(joined(lines, seq!['\n'])) == lines,
        lines_of(joined(lines.push(Seq::empty()), seq!['\n'])) == lines,
{
    law_split_undoes_join(lines, '\n');
    if lines.last().len() > 0 {
        assert(lines_of(joined(lines, seq!['\n'])) =~= lines);
    }
    let more = lines.push(Seq::empty());
    assert forall|i: int| 0 <= i < more.len() implies !(#[trigger] more[i]).contains('\n') by {
        if i < lines.len() {
            assert(is_line(lines[i]));
        }
    }
    law_split_undoes_join(more, '\n');
    assert forall|i: int| 0 <= i < lines.len() implies without_cr(#[trigger] more[i])
        == lines[i] by {
        assert(is_line(lines[i]));
    }
    assert(lines_of(joined(more, seq!['\n'])) =~= lines);
}

/// A text is cut to the longest beginning that takes at most `max` bytes.
pub proof fn law_clipped_is_the_longest_that_fits(s: Seq<char>, max: nat)
    ensures
        clipped(s, max).len() <= s.len(),
        clipped(s, max) == s.take(clipped(s, max).len() as int),
        byte_len(clipped(s, max)) <= max,
        byte_len(s) <= max ==> clipped(s, max) == s,
        clipped(s, max).len() < s.len() ==> byte_len(s.take(clipped(s, max).len() as int + 1)) > max,
    decreases s.len(),
{
    if byte_len(s) <= max || s.len() == 0 {
        assert(s.take(s.len() as int) =~= s);
    } else {
        let front = s.drop_last();
        law_clipped_is_the_longest_that_fits(front, max);
        let n = clipped(s, max).len() as int;
        assert(front.take(n) =~= s.take(n));
        if n < front.len() {
            assert(front.take(n + 1) =~= s.take(n + 1));
        } else {
            assert(s.take(n + 1) =~= s);
        }
    }
}

// ---------------------------------------------------------------------------
// Lengths in bytes
// ---------------------------------------------------------------------------

/// How many bytes a character takes in UTF-8.
pub open spec fn utf8_len(c: char) -> nat {
    let n = c as u32;
    if n < 0x80 {
        1
    } else if n < 0x800 {
        2
    } else if n < 0x10000 {
        3
    } else {
        4
    }
}

/// How many bytes a text takes in UTF-8.
pub open spec fn byte_len(s: Seq<char>) -> nat
    decreases s.len(),
{
    if s.len() == 0 {
        0
    } else {
        byte_len(s.drop_last()) + utf8_len(s.last())
    }
}

/// How many bytes a character takes in UTF-8.
pub fn char_width(c: char) -> (r: usize)
    ensures
        r == utf8_len(c),
        1 <= r <= 4,
{
    let n: u32 = c as u32;
    if n < 0x80 {
        1
    } else if n < 0x800 {
        2
    } else if n < 0x10000 {
        3
    } else {
        4
    }
}

/// The bytes of a text are those of its first character and those of the rest.
proof fn byte_len_front(s: Seq<char>)
    requires
        s.len() > 0,
    ensures
        byte_len(s) == utf8_len(s[0]) + byte_len(s.drop_first()),
    decreases s.len(),
{
    if s.len() == 1 {
        assert(s.drop_last() =~= Seq::<char>::empty());
        assert(s.drop_first() =~= Seq::<char>::empty());
    } else {
        byte_len_front(s.drop_last());
        assert(s.drop_last().drop_first() =~= s.drop_first().drop_last());
    }
}

/// A text takes as many bytes as its encoding has.
pub proof fn byte_len_is_encoded_len(s: Seq<char>)
    ensures
        byte_len(s) == vstd::utf8::encode_utf8(s).len(),
    decreases s.len(),
{
    if s.len() > 0 {
        byte_len_front(s);
        byte_len_is_encoded_len(s.drop_first());
        vstd::utf8::char_is_scalar(s[0]);
    }
}

/// How many bytes a text takes in UTF-8.
pub fn count_bytes(s: &str) -> (r: usize)
    ensures
        r as nat == byte_len(s@),
{
    proof {
        byte_len_is_encoded_len(s@);
    }
    s.as_bytes().len()
}

/// The longest beginning of `s` that takes at most `max` bytes.
pub open spec fn clipped(s: Seq<char>, max: nat) -> Seq<char>
    decreases s.len(),
{
    if byte_len(s) <= max || s.len() == 0 {
        s
    } else {
        clipped(s.drop_last(), max)
    }
}

/// A longer beginning takes no fewer bytes.
pub proof fn byte_len_grows(s: Seq<char>, i: int, j: int)
    requires
        0 <= i <= j <= s.len(),
    ensures
        byte_len(s.take(i)) <= byte_len(s.take(j)),
    decreases j - i,
{
    if i < j {
        byte_len_grows(s, i, j - 1);
        assert(s.take(j).drop_last() =~= s.take(j - 1));
    }
}

/// The longest beginning that fits is found from the front.
proof fn clipped_is(s: Seq<char>, n: int, k: int, max: nat)
    requires
        0 <= k <= n <= s.len(),
        byte_len(s.take(k)) <= max,
        k == n || byte_len(s.take(k + 1)) > max,
    ensures
        clipped(s.take(n), max) == s.take(k),
    decreases n - k,
{
    if k < n {
        byte_len_grows(s, k + 1, n);
        assert(s.take(n).drop_last() =~= s.take(n - 1));
        clipped_is(s, n - 1, k, max);
    }
}

/// Cuts a text off before it takes more than `max` bytes, without cutting a
/// character in two.
pub fn truncate_at_char_boundary(s: &str, max: usize) -> (r: String)
    ensures
        r@ == clipped(s@, max as nat),
{
    let chars = chars_of(s);
    let mut used: usize = 0;
    let mut k: usize = 0;
    assert(byte_len(s@.take(0)) == 0);
    while k < chars.len()
        invariant_except_break
            chars@ == s@,
            k <= s@.len(),
            used == byte_len(s@.take(k as int)),
            used <= max,
        ensures
            k <= s@.len(),
            byte_len(s@.take(k as int)) <= max,
            k == s@.len() || byte_len(s@.take(k + 1)) > max,
        decreases s@.len() - k,
    {
        let w: usize = char_width(chars[k]);
        assert(s@.take(k + 1).drop_last() =~= s@.take(k as int));
        if w > max - used {
            break ;
        }
        used += w;
        k += 1;
    }
    proof {
        clipped_is(s@, s@.len() as int, k as int, max as nat);
        assert(s@.take(s@.len() as int) =~= s@);
    }
    let r = string_of_range(&chars, 0, k);
    assert(r@ =~= s@.take(k as int));
    r
}

/// `s` with each `from` replaced by `to`.
pub open spec fn replaced(s: Seq<char>, from: char, to: char) -> Seq<char> {
    s.map_values(
        |c: char| if c == from {
            to
        } else {
            c
        },
    )
}

/// Replaces each `from` in a text by `to`.
pub fn replace_char(s: &str, from: char, to: char) -> (r: String)
    ensures
        r@ == replaced(s@, from, to),
{
    let chars = chars_of(s);
    let mut out = String::new();
    let mut i: usize = 0;
    while i < chars.len()
        invariant
            i <= chars@.len(),
            chars@ == s@,
            out@ == replaced(s@.take(i as int), from, to),
        decreases chars@.len() - i,
    {
        let c = if chars[i] == from {
            to
        } else {
            chars[i]
        };
        out.push(c);
        assert(replaced(s@.take(i + 1), from, to) =~= replaced(s@.take(i as int), from, to).push(
            c,
        ));
        i += 1;
    }
    assert(s@.take(s@.len() as int) =~= s@);
    out
}

/// `n` spaces.
pub open spec fn spaces(n: nat) -> Seq<char> {
    Seq::new(n, |i: int| ' ')
}

/// Text filled with spaces up to `n` characters.
pub open spec fn padded(s: Seq<char>, n: int) -> Seq<char> {
    if s.len() < n {
        s + spaces((n - s.len()) as nat)
    } else {
        s
    }
}

/// Text filled with spaces up to `n` characters.
pub fn pad(s: &str, n: usize) -> (r: String)
    ensures
        r@ == padded(s@, n as int),
{
    let count: usize = chars_of(s).len();
    let mut out = s.to_string();
    let mut k: usize = count;
    assert(spaces(0) =~= Seq::<char>::empty());
    assert(out@ =~= s@ + spaces(0));
    while k < n
        invariant
            count == s@.len(),
            count <= k,
            k <= n || k == count,
            out@ == s@ + spaces((k - count) as nat),
        decreases n - k,
    {
        out.push(' ');
        assert(spaces((k + 1 - count) as nat) =~= spaces((k - count) as nat).push(' '));
        assert(out@ =~= s@ + spaces((k + 1 - count) as nat));
        k += 1;
    }
    assert(count >= n ==> out@ =~= s@);
    out
}

/// `n` times the same character.
pub open spec fn repeated(c: char, n: nat) -> Seq<char> {
    Seq::new(n, |i: int| c)
}

/// `n` times the same character.
pub fn repeat(c: char, n: usize) -> (r: String)
    ensures
        r@ == repeated(c, n as nat),
{
    let mut out = String::new();
    let mut k: usize = 0;
    assert(out@ =~= repeated(c, 0));
    while k < n
        invariant
            k <= n,
            out@ == repeated(c, k as nat),
        decreases n - k,
    {
        out.push(c);
        assert(repeated(c, (k + 1) as nat) =~= repeated(c, k as nat).push(c));
        k += 1;
    }
    out
}

/// The first `n` characters.
pub open spec fn first_chars(s: Seq<char>, n: int) -> Seq<char> {
    if n < s.len() {
        s.take(n)
    } else {
        s
    }
}

/// The first `n` characters.
pub fn take_chars(s: &str, n: usize) -> (r: String)
    ensures
        r@ == first_chars(s@, n as int),
{
    let chars = chars_of(s);
    if n < chars.len() {
        let r = string_of_range(&chars, 0, n);
        assert(r@ =~= s@.take(n as int));
        r
    } else {
        s.to_string()
    }
}

// ---------------------------------------------------------------------------
// Numbers
// ---------------------------------------------------------------------------

/// The character of a decimal digit.
pub open spec fn digit(n: nat) -> char
    recommends
        n < 10,
{
    (48 + n) as char
}

/// The decimal digits of a number, without leading zeros.
pub open spec fn decimal_of(n: nat) -> Seq<char>
    decreases n,
{
    if n < 10 {
        seq![digit(n)]
    } else {
        decimal_of(n / 10).push(digit(n % 10))
    }
}

/// The character of a decimal digit.
pub fn digit_char(n: u64) -> (r: char)
    requires
        n < 10,
    ensures
        r == digit(n as nat),
{
    (48 + n as u8) as char
}

/// A number in decimal.
pub fn decimal(n: u64) -> (r: String)
    ensures
        r@ == decimal_of(n as nat),
    decreases n,
{
    if n < 10 {
        let mut out = String::new();
        out.push(digit_char(n));
        assert(out@ =~= seq![digit(n as nat)]);
        out
    } else {
        let mut out = decimal(n / 10);
        out.push(digit_char(n % 10));
        out
    }
}

// ---------------------------------------------------------------------------
// Words
// ---------------------------------------------------------------------------

/// The words of a text from `i` on, where `word` holds the characters of the word
/// that is being read.
pub open spec fn words_from(s: Seq<char>, i: int, word: Seq<char>) -> Seq<Seq<char>>
    decreases s.len() - i,
{
    let done = if word.len() > 0 {
        seq![word]
    } else {
        Seq::<Seq<char>>::empty()
    };
    if i < 0 || i >= s.len() {
        done
    } else if is_white(s[i]) {
        done + words_from(s, i + 1, Seq::empty())
    } else {
        words_from(s, i + 1, word.push(s[i]))
    }
}

/// The words of a text: its longest parts without white space.
pub open spec fn words_of(s: Seq<char>) -> Seq<Seq<char>> {
    words_from(s, 0, Seq::empty())
}

/// The words of a text.
pub fn words(s: &str) -> (r: Vec<String>)
    ensures
        views(r@) == words_of(s@),
{
    let chars = chars_of(s);
    let ghost goal = words_of(s@);
    let mut out: Vec<String> = Vec::new();
    let mut word: Vec<char> = Vec::new();
    let mut i: usize = 0;
    assert(views(out@) + goal =~= goal);
    assert(word@ =~= Seq::<char>::empty());
    while i < chars.len()
        invariant
            i <= chars@.len(),
            chars@ == s@,
            goal == views(out@) + words_from(s@, i as int, word@),
        decreases chars@.len() - i,
    {
        let c = chars[i];
        if is_whitespace(c) {
            let ghost rest = words_from(s@, i + 1, Seq::empty());
            if word.len() > 0 {
                let ghost before = out@;
                let w = string_of(&word);
                out.push(w);
                assert(views(out@) =~= views(before).push(w@));
                assert(views(before) + (seq![w@] + rest) =~= views(out@) + rest);
            } else {
                assert(views(out@) + (Seq::<Seq<char>>::empty() + rest) =~= views(out@) + rest);
            }
            word = Vec::new();
            assert(word@ =~= Seq::<char>::empty());
        } else {
            word.push(c);
        }
        i += 1;
    }
    if word.len() > 0 {
        let ghost before = out@;
        let w = string_of(&word);
        out.push(w);
        assert(views(out@) =~= views(before) + seq![w@]);
    } else {
        assert(views(out@) + Seq::<Seq<char>>::empty() =~= views(out@));
    }
    out
}

/// The words of two texts with white space between them are those of the first and those of
/// the second.
proof fn words_go_on(a: Seq<char>, c: char, b: Seq<char>, i: int, word: Seq<char>)
    requires
        is_white(c),
        0 <= i <= a.len(),
    ensures
        words_from(a.push(c) + b, i, word) == words_from(a, i, word) + words_of(b),
    decreases a.len() - i,
{
    let s = a.push(c) + b;
    let e = Seq::<char>::empty();
    if i < a.len() {
        assert(s[i] == a[i]);
        if is_white(a[i]) {
            words_go_on(a, c, b, i + 1, e);
            assert(words_from(s, i, word) =~= words_from(a, i, word) + words_of(b));
        } else {
            words_go_on(a, c, b, i + 1, word.push(a[i]));
        }
    } else {
        assert(s[i] == c);
        assert(s.skip(i + 1) =~= b);
        words_start_over(s, b, i + 1, 0, e);
        assert(words_from(s, i, word) =~= words_from(a, i, word) + words_of(b));
    }
}

/// Words are read alike wherever a text stands.
proof fn words_start_over(s: Seq<char>, b: Seq<char>, at: int, i: int, word: Seq<char>)
    requires
        0 <= at,
        at + b.len() == s.len(),
        s.skip(at) == b,
        0 <= i <= b.len(),
    ensures
        words_from(s, at + i, word) == words_from(b, i, word),
    decreases b.len() - i,
{
    if i < b.len() {
        assert(s[at + i] == s.skip(at)[i]);
        words_start_over(s, b, at, i + 1, Seq::empty());
        words_start_over(s, b, at, i + 1, word.push(b[i]));
    }
}

/// Characters that are no white space go on with a word.
proof fn word_goes_on(s: Seq<char>, i: int, word: Seq<char>)
    requires
        0 <= i <= s.len(),
        forall|k: int| 0 <= k < s.len() ==> !is_white(#[trigger] s[k]),
    ensures
        words_from(s, i, word) == (if word.len() + s.len() - i > 0 {
            seq![word + s.skip(i)]
        } else {
            Seq::<Seq<char>>::empty()
        }),
    decreases s.len() - i,
{
    if i < s.len() {
        word_goes_on(s, i + 1, word.push(s[i]));
        assert(word.push(s[i]) + s.skip(i + 1) =~= word + s.skip(i));
    } else {
        assert(word + s.skip(i) =~= word);
    }
}

/// Words are what stands between white space: a text without any is one word unless it is
/// empty, and the words of two texts with white space between them are those of both.
pub proof fn law_words_stand_between_white_space(a: Seq<char>, c: char, b: Seq<char>)
    ensures
        is_white(c) ==> words_of(a.push(c) + b) == words_of(a) + words_of(b),
        (forall|k: int| 0 <= k < a.len() ==> !is_white(#[trigger] a[k])) ==> words_of(a) == (
        if a.len() > 0 {
            seq![a]
        } else {
            Seq::<Seq<char>>::empty()
        }),
{
    if is_white(c) {
        words_go_on(a, c, b, 0, Seq::empty());
    }
    if forall|k: int| 0 <= k < a.len() ==> !is_white(#[trigger] a[k]) {
        word_goes_on(a, 0, Seq::empty());
        assert(Seq::<char>::empty() + a.skip(0) =~= a);
    }
}

/// Words with spaces between them are read back.
pub proof fn law_words_are_read_back(ws: Seq<Seq<char>>)
    requires
        forall|i: int, k: int|
            #![trigger ws[i][k]]
            0 <= i < ws.len() && 0 <= k < ws[i].len() ==> !is_white(ws[i][k]),
        forall|i: int| 0 <= i < ws.len() ==> (#[trigger] ws[i]).len() > 0,
    ensures
        words_of(joined(ws, seq![' '])) == ws,
    decreases ws.len(),
{
    let sep = seq![' '];
    if ws.len() == 0 {
        assert(words_of(joined(ws, sep)) =~= ws);
    } else {
        let front = ws.drop_last();
        let last = ws[ws.len() - 1];
        assert forall|i: int, k: int|
            #![trigger front[i][k]]
            0 <= i < front.len() && 0 <= k < front[i].len() implies !is_white(front[i][k]) by {
            assert(front[i][k] == ws[i][k]);
        }
        assert forall|i: int| 0 <= i < front.len() implies (#[trigger] front[i]).len() > 0 by {
            assert(front[i] == ws[i]);
        }
        law_words_are_read_back(front);
        assert forall|k: int| 0 <= k < last.len() implies !is_white(#[trigger] last[k]) by {
            assert(ws[ws.len() - 1][k] == last[k]);
        }
        law_words_stand_between_white_space(last, ' ', Seq::empty());
        if ws.len() == 1 {
            assert(joined(ws, sep) =~= last);
            assert(seq![last] =~= ws);
        } else {
            let base = joined(front, sep);
            assert(joined(ws, sep) =~= base.push(' ') + last);
            law_words_stand_between_white_space(base, ' ', last);
            assert(front + seq![last] =~= ws);
        }
    }
}

} // verus!
