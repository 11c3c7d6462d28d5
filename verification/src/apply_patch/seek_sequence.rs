//! Finding a run of lines in a file, first exactly and then with more and more
//! tolerance.

use crate::text;
use vstd::prelude::*;

verus! {

/// How two lines are compared.
#[derive(Clone, Copy, Debug, PartialEq, Eq, Structural)]
pub enum Tolerance {
    /// Character by character.
    Exact,
    /// Without regard to white space at the end.
    TrailingSpace,
    /// Without regard to white space at both ends.
    SurroundingSpace,
    /// As before, and with typographic dashes, quotes and spaces taken for
    /// their plain forms.
    Punctuation,
}

/// The plain form of a typographic dash, quote or space.
pub open spec fn plain(c: char) -> char {
    let n = c as u32;
    if 0x2010 <= n <= 0x2015 || n == 0x2212 {
        '-'
    } else if 0x2018 <= n <= 0x201b {
        '\''
    } else if 0x201c <= n <= 0x201f {
        '"'
    } else if n == 0xa0 || 0x2002 <= n <= 0x200a || n == 0x202f || n == 0x205f || n == 0x3000 {
        ' '
    } else {
        c
    }
}

/// A line without the white space around it and with plain punctuation.
pub open spec fn normalised(s: Seq<char>) -> Seq<char> {
    text::trimmed(s).map_values(|c: char| plain(c))
}

/// What two lines must share to be taken for equal.
pub open spec fn key(s: Seq<char>, tolerance: Tolerance) -> Seq<char> {
    match tolerance {
        Tolerance::Exact => s,
        Tolerance::TrailingSpace => text::trimmed_end(s),
        Tolerance::SurroundingSpace => text::trimmed(s),
        Tolerance::Punctuation => normalised(s),
    }
}

/// The keys of all lines.
pub open spec fn keys(lines: Seq<Seq<char>>, tolerance: Tolerance) -> Seq<Seq<char>> {
    Seq::new(lines.len(), |i: int| key(lines[i], tolerance))
}

/// The first place from `from` on where `pattern` stands in `lines`.
pub open spec fn first_at(lines: Seq<Seq<char>>, pattern: Seq<Seq<char>>, from: int) -> Option<int>
    decreases lines.len() - from,
{
    if from < 0 || from + pattern.len() > lines.len() {
        None
    } else if lines.subrange(from, from + pattern.len()) == pattern {
        Some(from)
    } else if from < lines.len() {
        first_at(lines, pattern, from + 1)
    } else {
        None
    }
}

/// The first place where `pattern` stands in `lines` under a tolerance.
pub open spec fn found(
    lines: Seq<Seq<char>>,
    pattern: Seq<Seq<char>>,
    from: int,
    tolerance: Tolerance,
) -> Option<int> {
    first_at(keys(lines, tolerance), keys(pattern, tolerance), from)
}

/// Where `pattern` is taken to stand in `lines`, looking from `start` on, or at
/// the very end of the file only. The least tolerance that finds it decides. An
/// empty pattern stands at `start`.
pub open spec fn sought(
    lines: Seq<Seq<char>>,
    pattern: Seq<Seq<char>>,
    start: int,
    eof: bool,
) -> Option<int> {
    let from = if eof {
        lines.len() - pattern.len()
    } else {
        start
    };
    if pattern.len() == 0 {
        Some(start)
    } else if pattern.len() > lines.len() {
        None
    } else if found(lines, pattern, from, Tolerance::Exact) is Some {
        found(lines, pattern, from, Tolerance::Exact)
    } else if found(lines, pattern, from, Tolerance::TrailingSpace) is Some {
        found(lines, pattern, from, Tolerance::TrailingSpace)
    } else if found(lines, pattern, from, Tolerance::SurroundingSpace) is Some {
        found(lines, pattern, from, Tolerance::SurroundingSpace)
    } else {
        found(lines, pattern, from, Tolerance::Punctuation)
    }
}

/// An index seen as a mathematical number.
pub open spec fn place(r: Option<usize>) -> Option<int> {
    match r {
        Some(i) => Some(i as int),
        None => None,
    }
}

/// The plain form of a typographic dash, quote or space.
fn plain_char(c: char) -> (r: char)
    ensures
        r == plain(c),
{
    let n: u32 = c as u32;
    if (0x2010 <= n && n <= 0x2015) || n == 0x2212 {
        '-'
    } else if 0x2018 <= n && n <= 0x201b {
        '\''
    } else if 0x201c <= n && n <= 0x201f {
        '"'
    } else if n == 0xa0 || (0x2002 <= n && n <= 0x200a) || n == 0x202f || n == 0x205f || n
        == 0x3000 {
        ' '
    } else {
        c
    }
}

/// A line without the white space around it and with plain punctuation.
pub fn normalise(s: &str) -> (r: String)
    ensures
        r@ == normalised(s@),
{
    let chars = text::chars_of(&text::trim(s));
    let mut out = String::new();
    let mut i: usize = 0;
    while i < chars.len()
        invariant
            i <= chars@.len(),
            chars@ == text::trimmed(s@),
            out@ == chars@.take(i as int).map_values(|c: char| plain(c)),
        decreases chars@.len() - i,
    {
        out.push(plain_char(chars[i]));
        assert(chars@.take(i + 1).map_values(|c: char| plain(c)) =~= chars@.take(
            i as int,
        ).map_values(|c: char| plain(c)).push(plain(chars@[i as int])));
        i += 1;
    }
    assert(chars@.take(chars@.len() as int) =~= chars@);
    out
}

/// The keys of all lines, as strings.
fn line_keys(lines: &[String], tolerance: Tolerance) -> (r: Vec<String>)
    ensures
        text::views(r@) == keys(text::views(lines@), tolerance),
{
    let ghost all = text::views(lines@);
    let mut out: Vec<String> = Vec::new();
    let mut i: usize = 0;
    while i < lines.len()
        invariant
            i <= lines@.len(),
            all == text::views(lines@),
            text::views(out@) == keys(all, tolerance).take(i as int),
        decreases lines@.len() - i,
    {
        let ghost before = text::views(out@);
        let k = match tolerance {
            Tolerance::Exact => lines[i].clone(),
            Tolerance::TrailingSpace => text::trim_end(&lines[i]),
            Tolerance::SurroundingSpace => text::trim(&lines[i]),
            Tolerance::Punctuation => normalise(&lines[i]),
        };
        assert(k@ == keys(all, tolerance)[i as int]);
        out.push(k);
        assert(text::views(out@) =~= before.push(k@));
        assert(keys(all, tolerance).take(i + 1) =~= keys(all, tolerance).take(i as int).push(k@));
        i += 1;
    }
    assert(text::views(out@) =~= keys(all, tolerance));
    out
}

/// Whether `pattern` stands in `lines` at `at`.
fn stands_at(lines: &Vec<String>, pattern: &Vec<String>, at: usize) -> (r: bool)
    requires
        at + pattern@.len() <= lines@.len(),
    ensures
        r == (text::views(lines@).subrange(at as int, at + pattern@.len()) == text::views(
            pattern@,
        )),
{
    let ghost ls = text::views(lines@);
    let ghost ps = text::views(pattern@);
    let total: usize = lines.len();
    let mut i: usize = 0;
    while i < pattern.len()
        invariant
            i <= pattern@.len(),
            at + pattern@.len() <= lines@.len() == total,
            ls == text::views(lines@),
            ps == text::views(pattern@),
            forall|k: int| 0 <= k < i ==> ls[at + k] == ps[k],
        decreases pattern@.len() - i,
    {
        assert(ls[at + i] == lines@[at + i]@);
        assert(ps[i as int] == pattern@[i as int]@);
        if !text::same(&lines[at + i], &pattern[i]) {
            assert(ls.subrange(at as int, at + ps.len())[i as int] != ps[i as int]);
            return false;
        }
        i += 1;
    }
    assert(ls.subrange(at as int, at + ps.len()) =~= ps);
    true
}

/// The first place from `from` on where `pattern` stands in `lines` under a
/// tolerance.
pub fn first_match(
    lines: &[String],
    pattern: &[String],
    from: usize,
    tolerance: Tolerance,
) -> (r: Option<usize>)
    requires
        0 < pattern@.len() <= lines@.len(),
    ensures
        place(r) == found(text::views(lines@), text::views(pattern@), from as int, tolerance),
        r matches Some(i) ==> from <= i && i + pattern@.len() <= lines@.len(),
{
    let ls = line_keys(lines, tolerance);
    let ps = line_keys(pattern, tolerance);
    let ghost lk = keys(text::views(lines@), tolerance);
    let ghost pk = keys(text::views(pattern@), tolerance);
    assert(ls@.len() == lk.len() && ps@.len() == pk.len());
    let end: usize = ls.len() - ps.len();
    if from > end {
        return None;
    }
    let mut i: usize = from;
    while i < end
        invariant
            from <= i <= end,
            end == ls@.len() - ps@.len(),
            0 < ps@.len() <= ls@.len(),
            ls@.len() == lines@.len(),
            ps@.len() == pattern@.len(),
            lk == text::views(ls@),
            pk == text::views(ps@),
            first_at(lk, pk, i as int) == first_at(lk, pk, from as int),
            found(text::views(lines@), text::views(pattern@), from as int, tolerance) == first_at(
                lk,
                pk,
                from as int,
            ),
        decreases end - i,
    {
        if stands_at(&ls, &ps, i) {
            return Some(i);
        }
        i += 1;
    }
    if stands_at(&ls, &ps, end) {
        Some(end)
    } else {
        proof {
            reveal_with_fuel(first_at, 2);
        }
        None
    }
}

/// Finds `pattern` in `lines` from `start` on, or at the end of the file only.
pub fn seek_sequence(lines: &[String], pattern: &[String], start: usize, eof: bool) -> (r: Option<
    usize,
>)
    ensures
        place(r) == sought(text::views(lines@), text::views(pattern@), start as int, eof),
        r matches Some(i) ==> (pattern@.len() == 0 && i == start) || i + pattern@.len()
            <= lines@.len(),
        r matches Some(i) ==> eof || start <= i,
{
    if pattern.len() == 0 {
        return Some(start);
    }
    if pattern.len() > lines.len() {
        return None;
    }
    let from: usize = if eof {
        lines.len() - pattern.len()
    } else {
        start
    };
    if let Some(i) = first_match(lines, pattern, from, Tolerance::Exact) {
        return Some(i);
    }
    if let Some(i) = first_match(lines, pattern, from, Tolerance::TrailingSpace) {
        return Some(i);
    }
    if let Some(i) = first_match(lines, pattern, from, Tolerance::SurroundingSpace) {
        return Some(i);
    }
    first_match(lines, pattern, from, Tolerance::Punctuation)
}

// ---------------------------------------------------------------------------
// Laws
// ---------------------------------------------------------------------------

/// A place found is where the pattern stands, and no earlier place is.
pub proof fn law_first_at_is_first(lines: Seq<Seq<char>>, pattern: Seq<Seq<char>>, from: int)
    requires
        0 <= from,
    ensures
        match first_at(lines, pattern, from) {
            Some(i) => {
                &&& from <= i
                &&& i + pattern.len() <= lines.len()
                &&& lines.subrange(i, i + pattern.len()) == pattern
                &&& forall|j: int|
                    from <= j < i ==> #[trigger] lines.subrange(j, j + pattern.len()) != pattern
            },
            None => forall|j: int|
                from <= j && j + pattern.len() <= lines.len() ==> #[trigger] lines.subrange(
                    j,
                    j + pattern.len(),
                ) != pattern,
        },
    decreases lines.len() - from,
{
    if from + pattern.len() <= lines.len() && lines.subrange(from, from + pattern.len())
        != pattern && from < lines.len() {
        law_first_at_is_first(lines, pattern, from + 1);
    } else if from == lines.len() && from + pattern.len() <= lines.len() {
        assert(lines.subrange(from, from + pattern.len()) =~= pattern);
    }
}

/// Lines that are equal stay equal under each tolerance, so lines found exactly
/// would be found under any of them.
pub proof fn law_exact_match_is_match(
    lines: Seq<Seq<char>>,
    pattern: Seq<Seq<char>>,
    at: int,
    tolerance: Tolerance,
)
    requires
        0 <= at,
        at + pattern.len() <= lines.len(),
        lines.subrange(at, at + pattern.len()) == pattern,
    ensures
        keys(lines, tolerance).subrange(at, at + pattern.len()) == keys(pattern, tolerance),
{
    let lk = keys(lines, tolerance);
    let pk = keys(pattern, tolerance);
    assert forall|k: int| 0 <= k < pattern.len() implies lk.subrange(at, at + pattern.len())[k]
        == pk[k] by {
        assert(lines.subrange(at, at + pattern.len())[k] == pattern[k]);
    }
    assert(lk.subrange(at, at + pattern.len()) =~= pk);
}

/// Whether the lines from `at` on match `pattern` one by one under a tolerance.
pub open spec fn matches_at(
    lines: Seq<Seq<char>>,
    pattern: Seq<Seq<char>>,
    at: int,
    tolerance: Tolerance,
) -> bool {
    &&& 0 <= at
    &&& at + pattern.len() <= lines.len()
    &&& forall|k: int|
        0 <= k < pattern.len() ==> key(#[trigger] lines[at + k], tolerance) == key(
            pattern[k],
            tolerance,
        )
}

/// Whether nothing from `from` on matches `pattern` under a tolerance.
pub open spec fn absent_from(
    lines: Seq<Seq<char>>,
    pattern: Seq<Seq<char>>,
    from: int,
    tolerance: Tolerance,
) -> bool {
    forall|at: int| from <= at ==> !#[trigger] matches_at(lines, pattern, at, tolerance)
}

/// Whether `at` is the first place from `from` on that matches `pattern` under a
/// tolerance.
pub open spec fn is_first_match(
    lines: Seq<Seq<char>>,
    pattern: Seq<Seq<char>>,
    from: int,
    at: int,
    tolerance: Tolerance,
) -> bool {
    &&& from <= at
    &&& matches_at(lines, pattern, at, tolerance)
    &&& forall|j: int| from <= j < at ==> !#[trigger] matches_at(lines, pattern, j, tolerance)
}

/// How much a tolerance passes over.
pub open spec fn rank(tolerance: Tolerance) -> int {
    match tolerance {
        Tolerance::Exact => 0,
        Tolerance::TrailingSpace => 1,
        Tolerance::SurroundingSpace => 2,
        Tolerance::Punctuation => 3,
    }
}

/// Whether `at` is where `pattern` is taken to stand from `from` on: the first place
/// that matches it under a tolerance, where nothing matches under any lesser one.
pub open spec fn is_place_of(
    lines: Seq<Seq<char>>,
    pattern: Seq<Seq<char>>,
    from: int,
    at: int,
) -> bool {
    exists|t: Tolerance|
        #[trigger] is_first_match(lines, pattern, from, at, t) && forall|lesser: Tolerance|
            rank(lesser) < rank(t) ==> #[trigger] absent_from(lines, pattern, from, lesser)
}

/// The first place that counts for lines of the given number.
pub open spec fn first_place(lines: Seq<Seq<char>>, start: int, eof: bool, count: int) -> int {
    if eof {
        lines.len() - count
    } else {
        start
    }
}

/// Whether lines are nowhere in a file where they are looked for.
pub open spec fn is_missing(
    lines: Seq<Seq<char>>,
    pattern: Seq<Seq<char>>,
    start: int,
    eof: bool,
) -> bool {
    forall|t: Tolerance| #[trigger]
        absent_from(
            lines,
            pattern,
            first_place(lines, start, eof, pattern.len() as int),
            t,
        )
}

/// The keys of lines are equal exactly where the lines match.
proof fn keys_match(
    lines: Seq<Seq<char>>,
    pattern: Seq<Seq<char>>,
    at: int,
    tolerance: Tolerance,
)
    requires
        0 <= at,
        at + pattern.len() <= lines.len(),
    ensures
        (keys(lines, tolerance).subrange(at, at + pattern.len()) == keys(pattern, tolerance))
            == matches_at(lines, pattern, at, tolerance),
{
    let part = keys(lines, tolerance).subrange(at, at + pattern.len());
    let pk = keys(pattern, tolerance);
    if part == pk {
        assert forall|k: int| 0 <= k < pattern.len() implies key(
            #[trigger] lines[at + k],
            tolerance,
        ) == key(pattern[k], tolerance) by {
            assert(part[k] == pk[k]);
        }
    }
    if matches_at(lines, pattern, at, tolerance) {
        assert forall|k: int| 0 <= k < pattern.len() implies part[k] == pk[k] by {
            assert(key(lines[at + k], tolerance) == key(pattern[k], tolerance));
        }
        assert(part =~= pk);
    }
}

/// A search under one tolerance gives the first match, or there is none.
pub proof fn found_is_first(
    lines: Seq<Seq<char>>,
    pattern: Seq<Seq<char>>,
    from: int,
    tolerance: Tolerance,
)
    requires
        0 <= from,
    ensures
        match found(lines, pattern, from, tolerance) {
            Some(i) => is_first_match(lines, pattern, from, i, tolerance),
            None => absent_from(lines, pattern, from, tolerance),
        },
{
    let lk = keys(lines, tolerance);
    let pk = keys(pattern, tolerance);
    law_first_at_is_first(lk, pk, from);
    assert forall|at: int|
        from <= at && #[trigger] matches_at(lines, pattern, at, tolerance) implies lk.subrange(
        at,
        at + pk.len(),
    ) == pk by {
        keys_match(lines, pattern, at, tolerance);
    }
    if let Some(i) = found(lines, pattern, from, tolerance) {
        keys_match(lines, pattern, i, tolerance);
        assert forall|j: int| from <= j < i implies !#[trigger] matches_at(
            lines,
            pattern,
            j,
            tolerance,
        ) by {
            assert(lk.subrange(j, j + pk.len()) != pk);
        }
    }
}

/// Lines are found where they stand: at the first place, from where the search begins,
/// that matches under the least tolerance that matches anywhere. At the end of a file only
/// the very last place counts. Where nothing is found, nothing matches under any
/// tolerance.
pub proof fn law_lines_are_found_where_they_stand(
    lines: Seq<Seq<char>>,
    pattern: Seq<Seq<char>>,
    start: int,
    eof: bool,
)
    requires
        pattern.len() > 0,
        0 <= start,
    ensures
        match sought(lines, pattern, start, eof) {
            Some(i) => is_place_of(
                lines,
                pattern,
                first_place(lines, start, eof, pattern.len() as int),
                i,
            ),
            None => is_missing(lines, pattern, start, eof),
        },
{
    let from = first_place(lines, start, eof, pattern.len() as int);
    if pattern.len() <= lines.len() {
        found_is_first(lines, pattern, from, Tolerance::Exact);
        found_is_first(lines, pattern, from, Tolerance::TrailingSpace);
        found_is_first(lines, pattern, from, Tolerance::SurroundingSpace);
        found_is_first(lines, pattern, from, Tolerance::Punctuation);
        if let Some(i) = sought(lines, pattern, start, eof) {
            let t = if found(lines, pattern, from, Tolerance::Exact) is Some {
                Tolerance::Exact
            } else if found(lines, pattern, from, Tolerance::TrailingSpace) is Some {
                Tolerance::TrailingSpace
            } else if found(lines, pattern, from, Tolerance::SurroundingSpace) is Some {
                Tolerance::SurroundingSpace
            } else {
                Tolerance::Punctuation
            };
            assert(is_first_match(lines, pattern, from, i, t));
            assert forall|lesser: Tolerance| rank(lesser) < rank(t) implies #[trigger] absent_from(
                lines,
                pattern,
                from,
                lesser,
            ) by {}
        } else {
            assert forall|t: Tolerance| #[trigger] absent_from(lines, pattern, from, t) by {
                match t {
                    Tolerance::Exact => {},
                    Tolerance::TrailingSpace => {},
                    Tolerance::SurroundingSpace => {},
                    Tolerance::Punctuation => {},
                }
            }
        }
    }
}

/// Lines that stand in a file character by character are found where they first do.
pub proof fn law_exact_lines_are_found_first(
    lines: Seq<Seq<char>>,
    pattern: Seq<Seq<char>>,
    start: int,
    at: int,
)
    requires
        pattern.len() > 0,
        0 <= start <= at,
        at + pattern.len() <= lines.len(),
        lines.subrange(at, at + pattern.len()) == pattern,
        forall|j: int|
            start <= j < at ==> #[trigger] lines.subrange(j, j + pattern.len()) != pattern,
    ensures
        sought(lines, pattern, start, false) == Some(at),
{
    let t = Tolerance::Exact;
    found_is_first(lines, pattern, start, t);
    assert(keys(lines, t) =~= lines);
    assert(keys(pattern, t) =~= pattern);
    keys_match(lines, pattern, at, t);
    let i = found(lines, pattern, start, t)->0;
    if i < at {
        keys_match(lines, pattern, i, t);
        assert(lines.subrange(i, i + pattern.len()) != pattern);
    }
    if at < i {
        assert(!matches_at(lines, pattern, at, t));
    }
}

/// What a tolerance passes over: white space at the end of a line, or at both ends, and
/// nothing else. What is left neither begins nor ends with what is passed over.
pub proof fn law_tolerances_pass_over_white_space(s: Seq<char>)
    ensures
        key(s, Tolerance::Exact) == s,
        ({
            let k = key(s, Tolerance::TrailingSpace);
            &&& k.len() <= s.len()
            &&& k == s.take(k.len() as int)
            &&& forall|i: int| k.len() <= i < s.len() ==> text::is_white(#[trigger] s[i])
            &&& k.len() > 0 ==> !text::is_white(k.last())
        }),
        exists|a: int| #[trigger] text::is_core(s, key(s, Tolerance::SurroundingSpace), a),
        key(s, Tolerance::Punctuation).len() == key(s, Tolerance::SurroundingSpace).len(),
        forall|i: int|
            0 <= i < key(s, Tolerance::Punctuation).len() && (key(
                s,
                Tolerance::SurroundingSpace,
            )[i] as u32) < 0x80 ==> #[trigger] key(s, Tolerance::Punctuation)[i] == key(
                s,
                Tolerance::SurroundingSpace,
            )[i],
{
    text::law_trimming_takes_white_space_only(s);
    let a = choose|a: int| #[trigger] text::is_core(s, text::trimmed(s), a);
    assert(text::is_core(s, key(s, Tolerance::SurroundingSpace), a));
}

} // verus!
