//! A text with a cursor, and the motions and deletions of an editor.
//!
//! The cursor is a number of characters, so it never stands inside one.

use crate::text;
use vstd::prelude::*;

verus! {

/// A text and the number of characters before the cursor.
#[derive(Debug)]
pub struct Draft {
    pub text: Vec<char>,
    pub cursor: usize,
}

/// A text and the number of characters before the cursor.
#[verifier::ext_equal]
pub struct DraftView {
    pub text: Seq<char>,
    pub cursor: int,
}

impl View for Draft {
    type V = DraftView;

    open spec fn view(&self) -> DraftView {
        DraftView { text: self.text@, cursor: self.cursor as int }
    }
}

impl DraftView {
    /// Whether the cursor stands in the text or at its end.
    pub open spec fn wf(self) -> bool {
        0 <= self.cursor <= self.text.len()
    }
}

// ---------------------------------------------------------------------------
// Places in a text
// ---------------------------------------------------------------------------

/// The characters that separate words without being white space.
pub open spec fn is_separator(c: char) -> bool {
    "`~!@#$%^&*()-=+[{]}\\|;:'\",.<>/?"@.contains(c)
}

/// Whether a character is outside ASCII.
pub open spec fn is_wide(c: char) -> bool {
    c as u32 >= 128
}

/// Whether two neighbouring characters belong to one word: neither is white
/// space, both separate words or neither does, and they are not both outside
/// ASCII.
pub open spec fn joins(c: char, d: char) -> bool {
    &&& !text::is_white(c)
    &&& !text::is_white(d)
    &&& is_separator(c) == is_separator(d)
    &&& !(is_wide(c) && is_wide(d))
}

/// How many of the first `n` characters are left when white space is dropped
/// from their end.
pub open spec fn before_blanks(s: Seq<char>, n: int) -> int
    decreases n,
{
    if n <= 0 {
        0
    } else if text::is_white(s[n - 1]) {
        before_blanks(s, n - 1)
    } else {
        n
    }
}

/// The start of the word that the character before `n` ends.
pub open spec fn run_start(s: Seq<char>, n: int) -> int
    decreases n,
{
    if n <= 1 {
        0
    } else if joins(s[n - 2], s[n - 1]) {
        run_start(s, n - 1)
    } else {
        n - 1
    }
}

/// The start of the word before the cursor.
pub open spec fn previous_word(s: Seq<char>, cursor: int) -> int {
    run_start(s, before_blanks(s, cursor))
}

/// The first place from `i` on that is not white space, or the end.
pub open spec fn after_blanks(s: Seq<char>, i: int) -> int
    decreases s.len() - i,
{
    if i < 0 || i >= s.len() {
        s.len() as int
    } else if text::is_white(s[i]) {
        after_blanks(s, i + 1)
    } else {
        i
    }
}

/// The end of the word that the character at `i` begins.
pub open spec fn run_end(s: Seq<char>, i: int) -> int
    decreases s.len() - i,
{
    if i < 0 || i >= s.len() {
        s.len() as int
    } else if i + 1 < s.len() && joins(s[i], s[i + 1]) {
        run_end(s, i + 1)
    } else {
        i + 1
    }
}

/// The end of the word behind the cursor.
pub open spec fn next_word(s: Seq<char>, cursor: int) -> int {
    run_end(s, after_blanks(s, cursor))
}

/// The start of the line that the first `n` characters end in.
pub open spec fn line_start(s: Seq<char>, n: int) -> int
    decreases n,
{
    if n <= 0 {
        0
    } else if s[n - 1] == '\n' {
        n
    } else {
        line_start(s, n - 1)
    }
}

/// The end of the line that stands at `i`.
pub open spec fn line_end(s: Seq<char>, i: int) -> int
    decreases s.len() - i,
{
    if i < 0 || i >= s.len() {
        s.len() as int
    } else if s[i] == '\n' {
        i
    } else {
        line_end(s, i + 1)
    }
}

/// Motions stay on their side of the cursor and inside the text.
pub proof fn law_motions_stay_inside(s: Seq<char>, cursor: int)
    requires
        0 <= cursor <= s.len(),
    ensures
        0 <= previous_word(s, cursor) <= cursor,
        cursor <= next_word(s, cursor) <= s.len(),
        0 <= line_start(s, cursor) <= cursor,
        cursor <= line_end(s, cursor) <= s.len(),
        cursor > 0 ==> previous_word(s, cursor) < cursor,
        cursor < s.len() ==> cursor < next_word(s, cursor),
{
    before_blanks_inside(s, cursor);
    run_start_inside(s, before_blanks(s, cursor));
    after_blanks_inside(s, cursor);
    run_end_inside(s, after_blanks(s, cursor));
    line_start_inside(s, cursor);
    line_end_inside(s, cursor);
}

/// The step of the law on motions for white space to the left.
proof fn before_blanks_inside(s: Seq<char>, n: int)
    requires
        0 <= n <= s.len(),
    ensures
        0 <= before_blanks(s, n) <= n,
    decreases n,
{
    if n > 0 && text::is_white(s[n - 1]) {
        before_blanks_inside(s, n - 1);
    }
}

/// The step of the law on motions for words to the left.
proof fn run_start_inside(s: Seq<char>, n: int)
    requires
        0 <= n <= s.len(),
    ensures
        0 <= run_start(s, n) <= n,
        n > 0 ==> run_start(s, n) < n,
    decreases n,
{
    if n > 1 && joins(s[n - 2], s[n - 1]) {
        run_start_inside(s, n - 1);
    }
}

/// The step of the law on motions for white space to the right.
proof fn after_blanks_inside(s: Seq<char>, i: int)
    requires
        0 <= i <= s.len(),
    ensures
        i <= after_blanks(s, i) <= s.len(),
    decreases s.len() - i,
{
    if i < s.len() && text::is_white(s[i]) {
        after_blanks_inside(s, i + 1);
    }
}

/// The step of the law on motions for words to the right.
proof fn run_end_inside(s: Seq<char>, i: int)
    requires
        0 <= i <= s.len(),
    ensures
        i <= run_end(s, i) <= s.len(),
        i < s.len() ==> i < run_end(s, i),
    decreases s.len() - i,
{
    if i + 1 < s.len() && joins(s[i], s[i + 1]) {
        run_end_inside(s, i + 1);
    }
}

/// The step of the law on motions for line starts.
proof fn line_start_inside(s: Seq<char>, n: int)
    requires
        0 <= n <= s.len(),
    ensures
        0 <= line_start(s, n) <= n,
    decreases n,
{
    if n > 0 && s[n - 1] != '\n' {
        line_start_inside(s, n - 1);
    }
}

/// The step of the law on motions for line ends.
proof fn line_end_inside(s: Seq<char>, i: int)
    requires
        0 <= i <= s.len(),
    ensures
        i <= line_end(s, i) <= s.len(),
    decreases s.len() - i,
{
    if i < s.len() && s[i] != '\n' {
        line_end_inside(s, i + 1);
    }
}

/// Whether a character separates words.
fn is_word_separator(c: char) -> (r: bool)
    ensures
        r == is_separator(c),
{
    text::has_char("`~!@#$%^&*()-=+[{]}\\|;:'\",.<>/?", c)
}

/// Whether two neighbouring characters belong to one word.
fn same_word(c: char, d: char) -> (r: bool)
    ensures
        r == joins(c, d),
{
    !text::is_whitespace(c) && !text::is_whitespace(d) && is_word_separator(c)
        == is_word_separator(d) && !(c as u32 >= 128 && d as u32 >= 128)
}

/// The start of the word before the cursor.
pub fn beginning_of_previous_word(s: &Vec<char>, cursor: usize) -> (r: usize)
    requires
        cursor <= s@.len(),
    ensures
        r as int == previous_word(s@, cursor as int),
        r <= cursor,
{
    let mut n: usize = cursor;
    while n > 0 && text::is_whitespace(s[n - 1])
        invariant
            n <= cursor <= s@.len(),
            before_blanks(s@, n as int) == before_blanks(s@, cursor as int),
        decreases n,
    {
        n -= 1;
    }
    if n == 0 {
        return 0;
    }
    let mut b: usize = n;
    while b > 1 && same_word(s[b - 2], s[b - 1])
        invariant
            1 <= b <= n <= cursor <= s@.len(),
            run_start(s@, b as int) == run_start(s@, n as int),
        decreases b,
    {
        b -= 1;
    }
    b - 1
}

/// The end of the word behind the cursor.
pub fn end_of_next_word(s: &Vec<char>, cursor: usize) -> (r: usize)
    requires
        cursor <= s@.len(),
    ensures
        r as int == next_word(s@, cursor as int),
        cursor <= r <= s@.len(),
{
    let mut i: usize = cursor;
    while i < s.len() && text::is_whitespace(s[i])
        invariant
            cursor <= i <= s@.len(),
            after_blanks(s@, i as int) == after_blanks(s@, cursor as int),
        decreases s@.len() - i,
    {
        i += 1;
    }
    if i == s.len() {
        return i;
    }
    let ghost first = i as int;
    while s.len() - i > 1 && same_word(s[i], s[i + 1])
        invariant
            cursor <= i < s@.len(),
            run_end(s@, i as int) == run_end(s@, first),
        decreases s@.len() - i,
    {
        i += 1;
    }
    i + 1
}

/// The start of the line before the cursor.
pub fn find_line_start(s: &Vec<char>, cursor: usize) -> (r: usize)
    requires
        cursor <= s@.len(),
    ensures
        r as int == line_start(s@, cursor as int),
        r <= cursor,
{
    let mut n: usize = cursor;
    while n > 0 && s[n - 1] != '\n'
        invariant
            n <= cursor <= s@.len(),
            line_start(s@, n as int) == line_start(s@, cursor as int),
        decreases n,
    {
        n -= 1;
    }
    n
}

/// The end of the line behind the cursor.
pub fn find_line_end(s: &Vec<char>, cursor: usize) -> (r: usize)
    requires
        cursor <= s@.len(),
    ensures
        r as int == line_end(s@, cursor as int),
        cursor <= r <= s@.len(),
{
    let mut i: usize = cursor;
    while i < s.len() && s[i] != '\n'
        invariant
            cursor <= i <= s@.len(),
            line_end(s@, i as int) == line_end(s@, cursor as int),
        decreases s@.len() - i,
    {
        i += 1;
    }
    i
}

// ---------------------------------------------------------------------------
// Editing
// ---------------------------------------------------------------------------

/// A draft with `added` put in at the cursor, which moves behind it.
pub open spec fn with_inserted(d: DraftView, added: Seq<char>) -> DraftView {
    DraftView {
        text: d.text.take(d.cursor) + added + d.text.skip(d.cursor),
        cursor: d.cursor + added.len(),
    }
}

/// A draft without the characters from `from` up to `to`, the cursor at `from`.
pub open spec fn without_range(d: DraftView, from: int, to: int) -> DraftView {
    DraftView { text: d.text.take(from) + d.text.skip(to), cursor: from }
}

/// A draft with its cursor at the given byte, or before the character that holds
/// that byte, or at the end.
pub open spec fn at_byte(s: Seq<char>, byte: nat) -> DraftView {
    DraftView { text: s, cursor: text::clipped(s, byte).len() as int }
}

/// The bytes before the cursor, as far as they can be counted.
pub open spec fn byte_cursor(d: DraftView) -> int {
    let n = text::byte_len(d.text.take(d.cursor));
    if n > usize::MAX {
        usize::MAX as int
    } else {
        n as int
    }
}

impl Draft {
    /// An empty draft.
    pub fn new() -> (r: Self)
        ensures
            r@ == (DraftView { text: Seq::empty(), cursor: 0 }),
    {
        Draft { text: Vec::new(), cursor: 0 }
    }

    /// The given text with the cursor at its end.
    pub fn at_end(s: &str) -> (r: Self)
        ensures
            r@ == (DraftView { text: s@, cursor: s@.len() as int }),
    {
        let text = text::chars_of(s);
        let cursor: usize = text.len();
        Draft { text, cursor }
    }

    /// The given text with the cursor at a byte.
    pub fn at_byte(s: &str, byte: usize) -> (r: Self)
        ensures
            r@ == at_byte(s@, byte as nat),
            r@.wf(),
    {
        let text = text::chars_of(s);
        let before = text::chars_of(&text::truncate_at_char_boundary(s, byte));
        proof {
            clipped_inside(s@, byte as nat);
        }
        Draft { text, cursor: before.len() }
    }

    /// The same draft again.
    pub fn copy(&self) -> (r: Self)
        ensures
            r@ == self@,
    {
        Draft { text: copy_chars(&self.text), cursor: self.cursor }
    }

    /// The text of the draft.
    pub fn to_text(&self) -> (r: String)
        ensures
            r@ == self@.text,
    {
        text::string_of(&self.text)
    }

    /// The number of bytes before the cursor.
    pub fn cursor_byte(&self) -> (r: usize)
        requires
            self@.wf(),
        ensures
            r as int == byte_cursor(self@),
    {
        let mut n: usize = 0;
        let mut i: usize = 0;
        let ghost s = self.text@;
        assert(text::byte_len(s.take(0)) == 0);
        while i < self.cursor
            invariant
                i <= self.cursor <= s.len(),
                s == self.text@,
                n == text::byte_len(s.take(i as int)) || (n == usize::MAX && text::byte_len(
                    s.take(i as int),
                ) >= usize::MAX),
            decreases self.cursor - i,
        {
            let w: usize = text::char_width(self.text[i]);
            assert(s.take(i + 1).drop_last() =~= s.take(i as int));
            if w > usize::MAX - n {
                n = usize::MAX;
            } else {
                n = n + w;
            }
            i += 1;
        }
        n
    }

    /// Puts text in at the cursor.
    pub fn insert_chars(&mut self, added: &Vec<char>)
        requires
            old(self)@.wf(),
        ensures
            final(self)@ == with_inserted(old(self)@, added@),
            final(self)@.wf(),
    {
        let ghost d = self@;
        let mut tail = self.text.split_off(self.cursor);
        let mut mid = copy_chars(added);
        self.text.append(&mut mid);
        self.cursor = self.text.len();
        self.text.append(&mut tail);
        assert(self.text@ =~= d.text.take(d.cursor) + added@ + d.text.skip(d.cursor));
    }

    /// Drops the characters from `from` up to `to` and gives them back.
    pub fn remove_range(&mut self, from: usize, to: usize) -> (r: Vec<char>)
        requires
            from <= to <= old(self)@.text.len(),
        ensures
            final(self)@ == without_range(old(self)@, from as int, to as int),
            final(self)@.wf(),
            r@ == old(self)@.text.subrange(from as int, to as int),
    {
        let ghost d = self@;
        let mut rest = self.text.split_off(from);
        let ghost behind = rest@;
        let mut tail = rest.split_off(to - from);
        assert(rest@ =~= d.text.subrange(from as int, to as int));
        self.text.append(&mut tail);
        self.cursor = from;
        assert(self.text@ =~= d.text.take(from as int) + d.text.skip(to as int));
        rest
    }
}

/// The same characters again.
pub fn copy_chars(v: &Vec<char>) -> (r: Vec<char>)
    ensures
        r@ == v@,
{
    let mut out: Vec<char> = Vec::new();
    let mut i: usize = 0;
    while i < v.len()
        invariant
            i <= v@.len(),
            out@ == v@.take(i as int),
        decreases v@.len() - i,
    {
        out.push(v[i]);
        assert(v@.take(i + 1) =~= v@.take(i as int).push(v@[i as int]));
        i += 1;
    }
    assert(out@ =~= v@);
    out
}

/// What is cut off is a beginning.
proof fn clipped_inside(s: Seq<char>, max: nat)
    ensures
        text::clipped(s, max).len() <= s.len(),
    decreases s.len(),
{
    if text::byte_len(s) > max && s.len() > 0 {
        clipped_inside(s.drop_last(), max);
    }
}

/// Putting in what was just dropped gives the draft back, with the cursor behind
/// it.
pub proof fn law_insert_undoes_remove(d: DraftView, from: int, to: int)
    requires
        0 <= from <= to <= d.text.len(),
    ensures
        with_inserted(without_range(d, from, to), d.text.subrange(from, to)) == (DraftView {
            text: d.text,
            cursor: to,
        }),
{
    let less = without_range(d, from, to);
    let back = with_inserted(less, d.text.subrange(from, to));
    assert(less.text.take(from) =~= d.text.take(from));
    assert(less.text.skip(from) =~= d.text.skip(to));
    assert(back.text =~= d.text);
}

/// Dropping what was just put in gives the draft back.
pub proof fn law_remove_undoes_insert(d: DraftView, added: Seq<char>)
    requires
        d.wf(),
    ensures
        without_range(with_inserted(d, added), d.cursor, d.cursor + added.len()) == d,
{
    let more = with_inserted(d, added);
    assert(more.text.take(d.cursor) =~= d.text.take(d.cursor));
    assert(more.text.skip(d.cursor + added.len()) =~= d.text.skip(d.cursor));
    assert(without_range(more, d.cursor, d.cursor + added.len()).text =~= d.text);
}

/// Whether a word lies between two places: between them stands no white space, no two neighbours
/// in it are of different words, and it ends where the text does, or where it does not go on.
pub open spec fn is_run(s: Seq<char>, a: int, b: int) -> bool {
    &&& 0 <= a < b <= s.len()
    &&& forall|i: int| a <= i < b - 1 ==> joins(#[trigger] s[i], s[i + 1])
    &&& !text::is_white(s[a])
}

/// The word before the cursor: behind it, up to the cursor, stands white space only; it does not
/// reach further back; and where only white space stands before the cursor, the motion goes to
/// the start.
pub proof fn law_previous_word_is_a_word(s: Seq<char>, cursor: int)
    requires
        0 <= cursor <= s.len(),
    ensures
        ({
            let a = previous_word(s, cursor);
            let b = before_blanks(s, cursor);
            &&& 0 <= b <= cursor
            &&& forall|i: int| b <= i < cursor ==> text::is_white(#[trigger] s[i])
            &&& b == 0 ==> a == 0
            &&& b > 0 ==> is_run(s, a, b)
            &&& b > 0 && a > 0 ==> !joins(s[a - 1], s[a])
        }),
{
    before_blanks_is(s, cursor);
    let b = before_blanks(s, cursor);
    if b > 0 {
        run_start_is(s, b);
    }
}

/// The word behind the cursor: before it, from the cursor on, stands white space only; it does
/// not reach further; and where only white space follows, the motion goes to the end.
pub proof fn law_next_word_is_a_word(s: Seq<char>, cursor: int)
    requires
        0 <= cursor <= s.len(),
    ensures
        ({
            let a = after_blanks(s, cursor);
            let b = next_word(s, cursor);
            &&& cursor <= a <= s.len()
            &&& forall|i: int| cursor <= i < a ==> text::is_white(#[trigger] s[i])
            &&& a == s.len() ==> b == s.len()
            &&& a < s.len() ==> is_run(s, a, b)
            &&& a < s.len() && b < s.len() ==> !joins(s[b - 1], s[b])
        }),
{
    after_blanks_is(s, cursor);
    let a = after_blanks(s, cursor);
    if a < s.len() {
        run_end_is(s, a);
    }
}

/// Only white space is passed over backwards.
proof fn before_blanks_is(s: Seq<char>, n: int)
    requires
        0 <= n <= s.len(),
    ensures
        0 <= before_blanks(s, n) <= n,
        forall|i: int| before_blanks(s, n) <= i < n ==> text::is_white(#[trigger] s[i]),
        before_blanks(s, n) > 0 ==> !text::is_white(s[before_blanks(s, n) - 1]),
    decreases n,
{
    if n > 0 && text::is_white(s[n - 1]) {
        before_blanks_is(s, n - 1);
    }
}

/// A word is followed back to its start.
proof fn run_start_is(s: Seq<char>, n: int)
    requires
        0 < n <= s.len(),
        !text::is_white(s[n - 1]),
    ensures
        is_run(s, run_start(s, n), n),
        run_start(s, n) > 0 ==> !joins(s[run_start(s, n) - 1], s[run_start(s, n)]),
    decreases n,
{
    if n > 1 && joins(s[n - 2], s[n - 1]) {
        run_start_is(s, n - 1);
        let a = run_start(s, n);
        assert forall|i: int| a <= i < n - 1 implies joins(#[trigger] s[i], s[i + 1]) by {}
    }
}

/// Only white space is passed over forwards.
proof fn after_blanks_is(s: Seq<char>, i: int)
    requires
        0 <= i <= s.len(),
    ensures
        i <= after_blanks(s, i) <= s.len(),
        forall|k: int| i <= k < after_blanks(s, i) ==> text::is_white(#[trigger] s[k]),
        after_blanks(s, i) < s.len() ==> !text::is_white(s[after_blanks(s, i)]),
    decreases s.len() - i,
{
    if i < s.len() && text::is_white(s[i]) {
        after_blanks_is(s, i + 1);
    }
}

/// A word is followed to its end.
proof fn run_end_is(s: Seq<char>, i: int)
    requires
        0 <= i < s.len(),
        !text::is_white(s[i]),
    ensures
        is_run(s, i, run_end(s, i)),
        run_end(s, i) < s.len() ==> !joins(s[run_end(s, i) - 1], s[run_end(s, i)]),
    decreases s.len() - i,
{
    if i + 1 < s.len() && joins(s[i], s[i + 1]) {
        run_end_is(s, i + 1);
    }
}

/// What makes a word: letters, digits and underscores of ASCII belong together, signs belong
/// together, and the two do not; white space belongs to no word.
pub proof fn law_words_are_of_one_kind(c: char, d: char)
    ensures
        ('a' <= c <= 'z' || 'A' <= c <= 'Z' || '0' <= c <= '9' || c == '_') && ('a' <= d <= 'z'
            || 'A' <= d <= 'Z' || '0' <= d <= '9' || d == '_') ==> joins(c, d),
        ('a' <= c <= 'z' || 'A' <= c <= 'Z' || '0' <= c <= '9' || c == '_') && (d == '/' || d == '.'
            || d == '-' || d == ':' || d == '(' || d == '"') ==> !joins(c, d) && !joins(d, c),
        (c == '/' || c == '.' || c == '-' || c == ':') && (d == '/' || d == '.' || d == '-' || d
            == ':') ==> joins(c, d),
        text::is_white(c) || text::is_white(d) ==> !joins(c, d),
        c as u32 >= 128 && d as u32 >= 128 ==> !joins(c, d),
{
    let signs = "`~!@#$%^&*()-=+[{]}\\|;:'\",.<>/?"@;
    reveal_strlit("`~!@#$%^&*()-=+[{]}\\|;:'\",.<>/?");
    assert(signs.len() == 31);
    assert(signs[10] == '(' && signs[12] == '-' && signs[22] == ':' && signs[24] == '"' && signs[26]
        == '.' && signs[29] == '/');
    assert(signs.contains('/') && signs.contains('.') && signs.contains('-') && signs.contains(':')
        && signs.contains('(') && signs.contains('"'));
    if 'a' <= c <= 'z' || 'A' <= c <= 'Z' || '0' <= c <= '9' || c == '_' {
        assert(!signs.contains(c));
        text::law_ascii_white_space(c);
    }
    if 'a' <= d <= 'z' || 'A' <= d <= 'Z' || '0' <= d <= '9' || d == '_' {
        assert(!signs.contains(d));
        text::law_ascii_white_space(d);
    }
    if c == '/' || c == '.' || c == '-' || c == ':' {
        text::law_ascii_white_space(c);
    }
    if d == '/' || d == '.' || d == '-' || d == ':' {
        text::law_ascii_white_space(d);
    }
}

/// A line reaches from behind the line feed before the cursor, or from the start, to the line
/// feed behind it, or to the end.
pub proof fn law_lines_lie_between_line_feeds(s: Seq<char>, cursor: int)
    requires
        0 <= cursor <= s.len(),
    ensures
        ({
            let a = line_start(s, cursor);
            let b = line_end(s, cursor);
            &&& 0 <= a <= cursor <= b <= s.len()
            &&& forall|i: int| a <= i < b ==> #[trigger] s[i] != '\n'
            &&& a > 0 ==> s[a - 1] == '\n'
            &&& b < s.len() ==> s[b] == '\n'
        }),
{
    line_start_is(s, cursor);
    line_end_is(s, cursor);
}

/// The start of a line.
proof fn line_start_is(s: Seq<char>, n: int)
    requires
        0 <= n <= s.len(),
    ensures
        0 <= line_start(s, n) <= n,
        forall|i: int| line_start(s, n) <= i < n ==> #[trigger] s[i] != '\n',
        line_start(s, n) > 0 ==> s[line_start(s, n) - 1] == '\n',
    decreases n,
{
    if n > 0 && s[n - 1] != '\n' {
        line_start_is(s, n - 1);
    }
}

/// The end of a line.
proof fn line_end_is(s: Seq<char>, i: int)
    requires
        0 <= i <= s.len(),
    ensures
        i <= line_end(s, i) <= s.len(),
        forall|k: int| i <= k < line_end(s, i) ==> #[trigger] s[k] != '\n',
        line_end(s, i) < s.len() ==> s[line_end(s, i)] == '\n',
    decreases s.len() - i,
{
    if i < s.len() && s[i] != '\n' {
        line_end_is(s, i + 1);
    }
}

} // verus!
