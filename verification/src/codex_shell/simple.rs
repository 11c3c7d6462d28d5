//! Plain command sequences for PowerShell and the Windows command prompt.
//!
//! A small tokenizer that knows quotes and separators and refuses everything
//! that it cannot judge.

use crate::codex_shell::bash;
use crate::text;
use vstd::prelude::*;

verus! {

/// Whether a character opens a quotation.
pub open spec fn is_quote(c: char) -> bool {
    c == '"' || c == '\''
}

/// How many characters the separator at `i` has; 0 where none stands there.
pub open spec fn separator_at(s: Seq<char>, i: int) -> int {
    let doubled = i + 1 < s.len() && s[i + 1] == s[i];
    if s[i] == ';' || s[i] == '\n' || s[i] == '\r' {
        1
    } else if s[i] == '|' {
        if doubled {
            2
        } else {
            1
        }
    } else if s[i] == '&' && doubled {
        2
    } else {
        0
    }
}

/// The parts of a script between its separators, read from `i` on behind the
/// parts `done` and the open part `cur`. Inside a quotation there are no
/// separators.
pub open spec fn segments_from(
    s: Seq<char>,
    i: int,
    quote: Option<char>,
    done: Seq<Seq<char>>,
    cur: Seq<char>,
) -> Seq<Seq<char>>
    decreases s.len() - i,
{
    if i < 0 || i >= s.len() {
        done.push(cur)
    } else {
        let c = s[i];
        match quote {
            Some(q) => segments_from(
                s,
                i + 1,
                (if c == q {
                    None
                } else {
                    quote
                }),
                done,
                cur.push(c),
            ),
            None => if is_quote(c) {
                segments_from(s, i + 1, Some(c), done, cur.push(c))
            } else if separator_at(s, i) > 0 {
                segments_from(s, i + separator_at(s, i), None, done.push(cur), Seq::empty())
            } else {
                segments_from(s, i + 1, None, done, cur.push(c))
            },
        }
    }
}

/// The parts of a script between its separators.
pub open spec fn segments(s: Seq<char>) -> Seq<Seq<char>> {
    segments_from(s, 0, None, Seq::empty(), Seq::empty())
}

/// The words of a command, read from `i` on behind the words `done` and the
/// characters `cur` of the open word. White space outside quotations ends a
/// word; the quotes themselves are dropped. A quotation left open gives none.
pub open spec fn words_from(
    s: Seq<char>,
    i: int,
    quote: Option<char>,
    in_word: bool,
    cur: Seq<char>,
    done: Seq<Seq<char>>,
) -> Option<Seq<Seq<char>>>
    decreases s.len() - i,
{
    if i < 0 || i >= s.len() {
        if quote is Some {
            None
        } else if in_word {
            Some(done.push(cur))
        } else {
            Some(done)
        }
    } else {
        let c = s[i];
        match quote {
            Some(q) => if c == q {
                words_from(s, i + 1, None, true, cur, done)
            } else {
                words_from(s, i + 1, quote, true, cur.push(c), done)
            },
            None => if is_quote(c) {
                words_from(s, i + 1, Some(c), true, cur, done)
            } else if text::is_white(c) {
                if in_word {
                    words_from(s, i + 1, None, false, Seq::empty(), done.push(cur))
                } else {
                    words_from(s, i + 1, None, false, cur, done)
                }
            } else {
                words_from(s, i + 1, None, true, cur.push(c), done)
            },
        }
    }
}

/// The words of a command.
pub open spec fn words(s: Seq<char>) -> Option<Seq<Seq<char>>> {
    words_from(s, 0, None, false, Seq::empty(), Seq::empty())
}

/// The cmdlets that change files or control processes, in lower case.
pub open spec fn is_dangerous(lower: Seq<char>) -> bool {
    ||| lower == "remove-item"@
    ||| lower == "del"@
    ||| lower == "erase"@
    ||| lower == "rd"@
    ||| lower == "rmdir"@
    ||| lower == "move-item"@
    ||| lower == "copy-item"@
    ||| lower == "rename-item"@
    ||| lower == "new-item"@
    ||| lower == "out-file"@
    ||| lower == "set-content"@
    ||| lower == "add-content"@
    ||| lower == "clear-content"@
    ||| lower == "start-process"@
    ||| lower == "stop-process"@
    ||| lower == "stop-job"@
    ||| lower == "invoke-expression"@
    ||| lower == "iex"@
}

/// Whether one of some words holds a dollar sign.
pub open spec fn has_dollar(ws: Seq<Seq<char>>) -> bool {
    exists|i: int| 0 <= i < ws.len() && (#[trigger] ws[i]).contains('$')
}

/// The commands of the parts from `k` on, behind `done`. A part without words is
/// passed over; one that cannot be judged gives none at all.
pub open spec fn commands_from(
    parts: Seq<Seq<char>>,
    k: int,
    done: Seq<Seq<Seq<char>>>,
) -> Option<Seq<Seq<Seq<char>>>>
    decreases parts.len() - k,
{
    if k < 0 || k >= parts.len() {
        Some(done)
    } else {
        match words(text::trimmed(parts[k])) {
            None => None,
            Some(ws) => if ws.len() == 0 {
                commands_from(parts, k + 1, done)
            } else if has_dollar(ws) || is_dangerous(text::ascii_lowered(ws[0])) {
                None
            } else {
                commands_from(parts, k + 1, done.push(ws))
            },
        }
    }
}

/// The commands of a script, if it is a plain command sequence: no redirects, no
/// escapes, no stop-parsing marker, no variables and no dangerous cmdlets.
pub open spec fn simple_commands(script: Seq<char>) -> Option<Seq<Seq<Seq<char>>>> {
    if script.contains('>') || script.contains('<') || script.contains('`') || text::occurs(
        script,
        "--%"@,
    ) {
        None
    } else {
        match commands_from(segments(script), 0, Seq::empty()) {
            None => None,
            Some(commands) => if commands.len() == 0 {
                None
            } else {
                Some(commands)
            },
        }
    }
}

/// Splits a script at `;`, `|`, `&&`, `||` and line ends outside quotations.
pub fn split_on_separators(script: &str) -> (r: Vec<String>)
    ensures
        text::views(r@) == segments(script@),
{
    let chars = text::chars_of(script);
    let ghost s = script@;
    let mut out: Vec<String> = Vec::new();
    let mut cur = String::new();
    let mut quote: Option<char> = None;
    let mut i: usize = 0;
    assert(text::views(out@) =~= Seq::<Seq<char>>::empty());
    while i < chars.len()
        invariant
            chars@ == s,
            i <= s.len(),
            segments_from(s, i as int, quote, text::views(out@), cur@) == segments(s),
        decreases s.len() - i,
    {
        let ghost before = text::views(out@);
        let ghost part = cur@;
        let c = chars[i];
        match quote {
            Some(q) => {
                cur.push(c);
                if c == q {
                    quote = None;
                }
                i += 1;
            },
            None => {
                let doubled = chars.len() - i > 1 && chars[i + 1] == c;
                if c == '"' || c == '\'' {
                    quote = Some(c);
                    cur.push(c);
                    i += 1;
                } else if c == ';' || c == '|' || c == '\n' || c == '\r' || (c == '&' && doubled) {
                    out.push(cur);
                    cur = String::new();
                    assert(text::views(out@) =~= before.push(part));
                    if doubled && (c == '|' || c == '&') {
                        i += 2;
                    } else {
                        i += 1;
                    }
                } else {
                    cur.push(c);
                    i += 1;
                }
            },
        }
    }
    let ghost before = text::views(out@);
    let ghost part = cur@;
    out.push(cur);
    assert(text::views(out@) =~= before.push(part));
    out
}

/// Splits a command into words.
pub fn tokenize_command(cmd: &str) -> (r: Option<Vec<String>>)
    ensures
        bash::words_view(r) == words(cmd@),
{
    let chars = text::chars_of(cmd);
    let ghost s = cmd@;
    let mut tokens: Vec<String> = Vec::new();
    let mut current = String::new();
    let mut in_token = false;
    let mut quote: Option<char> = None;
    let mut i: usize = 0;
    assert(text::views(tokens@) =~= Seq::<Seq<char>>::empty());
    while i < chars.len()
        invariant
            chars@ == s,
            s == cmd@,
            i <= s.len(),
            words_from(s, i as int, quote, in_token, current@, text::views(tokens@)) == words(s),
        decreases s.len() - i,
    {
        let ghost before = text::views(tokens@);
        let ghost word = current@;
        let c = chars[i];
        match quote {
            Some(q) => {
                in_token = true;
                if c == q {
                    quote = None;
                } else {
                    current.push(c);
                }
            },
            None => {
                if c == '"' || c == '\'' {
                    in_token = true;
                    quote = Some(c);
                } else if text::is_whitespace(c) {
                    if in_token {
                        tokens.push(current);
                        current = String::new();
                        in_token = false;
                        assert(text::views(tokens@) =~= before.push(word));
                    }
                } else {
                    in_token = true;
                    current.push(c);
                }
            },
        }
        i += 1;
    }
    if quote.is_some() {
        return None;
    }
    if in_token {
        let ghost before = text::views(tokens@);
        let ghost word = current@;
        tokens.push(current);
        assert(text::views(tokens@) =~= before.push(word));
    }
    Some(tokens)
}

/// Whether a program is a cmdlet that changes files or controls processes. Case
/// does not matter.
pub fn is_dangerous_powershell_cmdlet(program: &str) -> (r: bool)
    ensures
        r == is_dangerous(text::ascii_lowered(program@)),
{
    let lower = text::to_ascii_lowercase(program);
    text::same(&lower, "remove-item") || text::same(&lower, "del") || text::same(&lower, "erase")
        || text::same(&lower, "rd") || text::same(&lower, "rmdir") || text::same(
        &lower,
        "move-item",
    ) || text::same(&lower, "copy-item") || text::same(&lower, "rename-item") || text::same(
        &lower,
        "new-item",
    ) || text::same(&lower, "out-file") || text::same(&lower, "set-content") || text::same(
        &lower,
        "add-content",
    ) || text::same(&lower, "clear-content") || text::same(&lower, "start-process") || text::same(
        &lower,
        "stop-process",
    ) || text::same(&lower, "stop-job") || text::same(&lower, "invoke-expression") || text::same(
        &lower,
        "iex",
    )
}

/// Whether one of some words holds a dollar sign.
fn any_dollar(ws: &Vec<String>) -> (r: bool)
    ensures
        r == has_dollar(text::views(ws@)),
{
    let ghost all = text::views(ws@);
    let mut i: usize = 0;
    while i < ws.len()
        invariant
            i <= ws@.len(),
            all == text::views(ws@),
            forall|k: int| 0 <= k < i ==> !(#[trigger] all[k]).contains('$'),
        decreases ws@.len() - i,
    {
        assert(all[i as int] == ws@[i as int]@);
        if text::has_char(&ws[i], '$') {
            return true;
        }
        i += 1;
    }
    false
}

/// The commands of a script for PowerShell or the Windows command prompt.
pub fn parse_simple_command_sequence(script: &str) -> (r: Option<Vec<Vec<String>>>)
    ensures
        bash::commands_view(r) == simple_commands(script@),
{
    if text::has_char(script, '>') || text::has_char(script, '<') {
        return None;
    }
    if text::has_char(script, '`') {
        return None;
    }
    if text::contains(script, "--%") {
        return None;
    }
    let parts = split_on_separators(script);
    let ghost ps = segments(script@);
    let mut commands: Vec<Vec<String>> = Vec::new();
    assert(text::nested_views(commands@) =~= Seq::<Seq<Seq<char>>>::empty());
    let mut k: usize = 0;
    while k < parts.len()
        invariant
            k <= parts@.len(),
            ps == text::views(parts@),
            ps == segments(script@),
            !script@.contains('>') && !script@.contains('<') && !script@.contains('`')
                && !text::occurs(script@, "--%"@),
            commands_from(ps, k as int, text::nested_views(commands@)) == commands_from(
                ps,
                0,
                Seq::empty(),
            ),
        decreases parts@.len() - k,
    {
        let ghost before = text::nested_views(commands@);
        assert(ps[k as int] == parts@[k as int]@);
        match tokenize_command(&text::trim(&parts[k])) {
            None => return None,
            Some(tokens) => {
                if tokens.len() > 0 {
                    assert(text::views(tokens@)[0] == tokens@[0]@);
                    if any_dollar(&tokens) || is_dangerous_powershell_cmdlet(&tokens[0]) {
                        return None;
                    }
                    commands.push(tokens);
                    assert(text::nested_views(commands@) =~= before.push(text::views(tokens@)));
                }
            },
        }
        k += 1;
    }
    if commands.len() == 0 {
        None
    } else {
        Some(commands)
    }
}

// ---------------------------------------------------------------------------
// Laws
// ---------------------------------------------------------------------------

/// A command that may pass: it has a program, which is no dangerous cmdlet, and
/// no word of it holds a dollar sign.
pub open spec fn is_harmless(ws: Seq<Seq<char>>) -> bool {
    ws.len() > 0 && !has_dollar(ws) && !is_dangerous(text::ascii_lowered(ws[0]))
}

/// The step of the law on accepted scripts.
proof fn commands_are_harmless(parts: Seq<Seq<char>>, k: int, done: Seq<Seq<Seq<char>>>)
    requires
        forall|i: int| 0 <= i < done.len() ==> is_harmless(#[trigger] done[i]),
    ensures
        commands_from(parts, k, done) matches Some(cs) ==> forall|i: int|
            0 <= i < cs.len() ==> is_harmless(#[trigger] cs[i]),
    decreases parts.len() - k,
{
    if 0 <= k < parts.len() {
        if let Some(ws) = words(text::trimmed(parts[k])) {
            if ws.len() == 0 {
                commands_are_harmless(parts, k + 1, done);
            } else if !has_dollar(ws) && !is_dangerous(text::ascii_lowered(ws[0])) {
                commands_are_harmless(parts, k + 1, done.push(ws));
            }
        }
    }
}

/// A script that is accepted redirects nothing, escapes nothing and consists of
/// at least one command, all of them harmless.
pub proof fn law_accepted_scripts_are_harmless(script: Seq<char>)
    ensures
        simple_commands(script) matches Some(cs) ==> {
            &&& !script.contains('>')
            &&& !script.contains('<')
            &&& !script.contains('`')
            &&& !text::occurs(script, "--%"@)
            &&& cs.len() > 0
            &&& forall|i: int| 0 <= i < cs.len() ==> is_harmless(#[trigger] cs[i])
        },
{
    commands_are_harmless(segments(script), 0, Seq::empty());
}

/// Which quotation is open after the characters of `s` from `a` up to `i`, where none
/// is open at `a`. There is no answer where a separator stands between them.
pub open spec fn open_quote(s: Seq<char>, a: int, i: int) -> Option<Option<char>>
    decreases i - a,
{
    if i <= a {
        Some(None)
    } else {
        let c = s[i - 1];
        match open_quote(s, a, i - 1) {
            None => None,
            Some(Some(q)) => Some(
                if c == q {
                    None
                } else {
                    Some(q)
                },
            ),
            Some(None) => if is_quote(c) {
                Some(Some(c))
            } else if separator_at(s, i - 1) > 0 {
                None
            } else {
                Some(None)
            },
        }
    }
}

/// A part without separators outside quotations is read in one piece.
proof fn part_is_whole(s: Seq<char>, a: int, b: int, k: int)
    requires
        0 <= a <= b <= s.len(),
        0 <= k <= b - a,
        open_quote(s, a, b) is Some,
    ensures
        ({
            let g = s.subrange(a, b);
            &&& open_quote(s, a, a + k) is Some
            &&& segments(g) == segments_from(
                g,
                k,
                open_quote(s, a, a + k)->0,
                Seq::empty(),
                g.take(k),
            )
        }),
    decreases k,
{
    open_quote_prefix(s, a, b, a + k);
    let g = s.subrange(a, b);
    if k > 0 {
        part_is_whole(s, a, b, k - 1);
        open_quote_prefix(s, a, b, a + k - 1);
        assert(g[k - 1] == s[a + k - 1]);
        assert(g.take(k - 1).push(g[k - 1]) =~= g.take(k));
        if k < g.len() {
            assert(g[k] == s[a + k]);
        }
    } else {
        assert(g.take(0) =~= Seq::<char>::empty());
    }
}

/// What is read without a separator has none in its beginning either.
proof fn open_quote_prefix(s: Seq<char>, a: int, b: int, i: int)
    requires
        a <= i <= b,
        open_quote(s, a, b) is Some,
    ensures
        open_quote(s, a, i) is Some,
    decreases b - i,
{
    if i < b {
        open_quote_prefix(s, a, b, i + 1);
    }
}

/// The step of the law on the parts of a script.
proof fn parts_are_whole(
    s: Seq<char>,
    a: int,
    i: int,
    quote: Option<char>,
    done: Seq<Seq<char>>,
)
    requires
        0 <= a <= i <= s.len(),
        open_quote(s, a, i) == Some(quote),
        forall|k: int| 0 <= k < done.len() ==> segments(#[trigger] done[k]) == seq![done[k]],
    ensures
        ({
            let all = segments_from(s, i, quote, done, s.subrange(a, i));
            &&& all.len() >= 1
            &&& forall|k: int| 0 <= k < all.len() ==> segments(#[trigger] all[k]) == seq![all[k]]
        }),
    decreases s.len() - i,
{
    let cur = s.subrange(a, i);
    if i < s.len() {
        let c = s[i];
        assert(cur.push(c) =~= s.subrange(a, i + 1));
        if quote is None && !is_quote(c) && separator_at(s, i) > 0 {
            whole_part(s, a, i);
            let next = i + separator_at(s, i);
            assert(s.subrange(next, next) =~= Seq::<char>::empty());
            let more = done.push(cur);
            assert forall|k: int| 0 <= k < more.len() implies segments(#[trigger] more[k])
                == seq![more[k]] by {
                if k < done.len() {
                    assert(more[k] == done[k]);
                }
            }
            parts_are_whole(s, next, next, None, more);
        } else {
            let after = match quote {
                Some(q) => if c == q {
                    None
                } else {
                    quote
                },
                None => if is_quote(c) {
                    Some(c)
                } else {
                    None
                },
            };
            assert(open_quote(s, a, i + 1) == Some(after));
            parts_are_whole(s, a, i + 1, after, done);
        }
    } else {
        whole_part(s, a, i);
        let all = done.push(cur);
        assert forall|k: int| 0 <= k < all.len() implies segments(#[trigger] all[k])
            == seq![all[k]] by {
            if k < done.len() {
                assert(all[k] == done[k]);
            }
        }
    }
}

/// A part without separators outside quotations is its only part.
proof fn whole_part(s: Seq<char>, a: int, b: int)
    requires
        0 <= a <= b <= s.len(),
        open_quote(s, a, b) is Some,
    ensures
        segments(s.subrange(a, b)) == seq![s.subrange(a, b)],
{
    let g = s.subrange(a, b);
    part_is_whole(s, a, b, b - a);
    assert(g.take(b - a) =~= g);
    assert(Seq::<Seq<char>>::empty().push(g) =~= seq![g]);
}

/// A script has at least one part, and a part splits no further: no part still holds a
/// separator outside quotations.
pub proof fn law_parts_split_no_further(script: Seq<char>)
    ensures
        segments(script).len() >= 1,
        forall|k: int|
            0 <= k < segments(script).len() ==> segments(#[trigger] segments(script)[k])
                == seq![segments(script)[k]],
{
    assert(script.subrange(0, 0) =~= Seq::<char>::empty());
    parts_are_whole(script, 0, 0, None, Seq::empty());
}

/// A word in double quotes.
pub open spec fn quoted(word: Seq<char>) -> Seq<char> {
    seq!['"'] + word + seq!['"']
}

/// Words in double quotes, with a space between them.
pub open spec fn quoted_line(words: Seq<Seq<char>>) -> Seq<char>
    decreases words.len(),
{
    if words.len() == 0 {
        Seq::empty()
    } else if words.len() == 1 {
        quoted(words[0])
    } else {
        quoted_line(words.drop_last()) + seq![' '] + quoted(words.last())
    }
}

/// Reading on inside double quotes takes the characters as they are.
proof fn quotation_is_read(
    s: Seq<char>,
    i: int,
    word: Seq<char>,
    cur: Seq<char>,
    done: Seq<Seq<char>>,
)
    requires
        0 <= i,
        i + word.len() <= s.len(),
        s.subrange(i, i + word.len()) == word,
        !word.contains('"'),
    ensures
        words_from(s, i, Some('"'), true, cur, done) == words_from(
            s,
            i + word.len(),
            Some('"'),
            true,
            cur + word,
            done,
        ),
    decreases word.len(),
{
    if word.len() > 0 {
        let rest = word.skip(1);
        assert(s[i] == s.subrange(i, i + word.len())[0]);
        assert(word.contains(word[0]));
        assert(s.subrange(i + 1, i + 1 + rest.len()) =~= rest) by {
            assert forall|k: int| 0 <= k < rest.len() implies s[i + 1 + k] == rest[k] by {
                assert(s.subrange(i, i + word.len())[k + 1] == word[k + 1]);
            }
        }
        assert(!rest.contains('"')) by {
            if rest.contains('"') {
                let k = rest.index_of('"');
                assert(word[k + 1] == '"');
            }
        }
        quotation_is_read(s, i + 1, rest, cur.push(s[i]), done);
        assert(cur.push(s[i]) + rest =~= cur + word);
    } else {
        assert(cur + word =~= cur);
    }
}

/// The words that are closed once the quoted words were read: all but the last one.
pub open spec fn closed_words(words: Seq<Seq<char>>) -> Seq<Seq<char>> {
    if words.len() == 0 {
        words
    } else {
        words.drop_last()
    }
}

/// The word that is open once the quoted words were read: the last one.
pub open spec fn open_word(words: Seq<Seq<char>>) -> Seq<char> {
    if words.len() == 0 {
        Seq::empty()
    } else {
        words.last()
    }
}

/// Reading quoted words, whatever follows them.
proof fn line_is_read(ws: Seq<Seq<char>>, tail: Seq<char>)
    requires
        forall|k: int| 0 <= k < ws.len() ==> !(#[trigger] ws[k]).contains('"'),
    ensures
        words(quoted_line(ws) + tail) == words_from(
            quoted_line(ws) + tail,
            quoted_line(ws).len() as int,
            None,
            ws.len() > 0,
            open_word(ws),
            closed_words(ws),
        ),
    decreases ws.len(),
{
    let line = quoted_line(ws);
    let s = line + tail;
    if ws.len() == 0 {
        assert(closed_words(ws) =~= Seq::<Seq<char>>::empty());
    } else {
        let front = ws.drop_last();
        let w = ws[ws.len() - 1];
        let before = quoted_line(front);
        let gap = if ws.len() == 1 {
            Seq::<char>::empty()
        } else {
            seq![' ']
        };
        assert(line =~= before + gap + quoted(w)) by {
            if ws.len() == 1 {
                assert(before =~= Seq::<char>::empty());
            }
        }
        let more = gap + quoted(w) + tail;
        assert(s =~= before + more);
        assert forall|k: int| 0 <= k < front.len() implies !(#[trigger] front[k]).contains('"') by {
            assert(front[k] == ws[k]);
        }
        line_is_read(front, more);
        let p = before.len() as int;
        let q = p + gap.len();
        if ws.len() > 1 {
            assert(s[p] == ' ');
            assert(text::is_white(' '));
            assert(closed_words(front).push(open_word(front)) =~= front);
        } else {
            assert(front =~= Seq::<Seq<char>>::empty());
        }
        let e = Seq::<char>::empty();
        assert(words(s) == words_from(s, q, None, false, e, front));
        assert(s[q] == '"');
        assert(words(s) == words_from(s, q + 1, Some('"'), true, e, front));
        assert(s.subrange(q + 1, q + 1 + w.len()) =~= w);
        quotation_is_read(s, q + 1, w, e, front);
        assert(e + w =~= w);
        assert(s[q + 1 + w.len()] == '"');
        assert(line.len() == q + 1 + w.len() + 1);
    }
}

/// Words in double quotes are read back, the empty ones and those with spaces too, and
/// a quotation that is left open gives no words at all.
pub proof fn law_quoted_words_are_read_back(ws: Seq<Seq<char>>, unclosed: Seq<char>)
    requires
        forall|k: int| 0 <= k < ws.len() ==> !(#[trigger] ws[k]).contains('"'),
        !unclosed.contains('"'),
    ensures
        words(quoted_line(ws)) == Some(ws),
        words(quoted_line(ws) + seq![' ', '"'] + unclosed) is None,
{
    let line = quoted_line(ws);
    let e = Seq::<char>::empty();
    line_is_read(ws, e);
    assert(line + e =~= line);
    if ws.len() > 0 {
        assert(closed_words(ws).push(open_word(ws)) =~= ws);
    } else {
        assert(closed_words(ws) =~= ws);
    }
    let tail = seq![' ', '"'] + unclosed;
    let s = line + tail;
    assert(line + seq![' ', '"'] + unclosed =~= s);
    line_is_read(ws, tail);
    let p = line.len() as int;
    assert(s[p] == ' ' && s[p + 1] == '"');
    assert(text::is_white(' '));
    assert(words(s) == words_from(s, p + 1, None, false, e, ws));
    assert(words(s) == words_from(s, p + 2, Some('"'), true, e, ws));
    assert(s.subrange(p + 2, p + 2 + unclosed.len()) =~= unclosed);
    quotation_is_read(s, p + 2, unclosed, e, ws);
}

/// Whether a text holds neither quotes nor characters that separate commands.
pub open spec fn is_unbroken(s: Seq<char>) -> bool {
    forall|i: int|
        0 <= i < s.len() ==> !is_quote(#[trigger] s[i]) && s[i] != ';' && s[i] != '\n' && s[i]
            != '\r' && s[i] != '|' && s[i] != '&'
}

/// A semicolon, the end of a line, a pipe, `||` and `&&` each part a command from what follows:
/// the text before it is one part, and what stands behind it is parted in the same way.
pub proof fn law_separators_part_commands(a: Seq<char>, rest: Seq<char>)
    requires
        is_unbroken(a),
    ensures
        segments(a + seq![';'] + rest) == seq![a] + segments(rest),
        segments(a + seq!['\n'] + rest) == seq![a] + segments(rest),
        segments(a + seq!['\r'] + rest) == seq![a] + segments(rest),
        segments(a + seq!['|', '|'] + rest) == seq![a] + segments(rest),
        segments(a + seq!['&', '&'] + rest) == seq![a] + segments(rest),
        rest.len() == 0 || rest[0] != '|' ==> segments(a + seq!['|'] + rest) == seq![a] + segments(
            rest,
        ),
        segments(a) == seq![a],
{
    separator_parts(a, seq![';'], rest);
    separator_parts(a, seq!['\n'], rest);
    separator_parts(a, seq!['\r'], rest);
    separator_parts(a, seq!['|', '|'], rest);
    separator_parts(a, seq!['&', '&'], rest);
    if rest.len() == 0 || rest[0] != '|' {
        separator_parts(a, seq!['|'], rest);
    }
    let e = Seq::<char>::empty();
    assert(a.take(a.len() as int) =~= a);
    unbroken_is_read(a, a, 0);
    assert(a.take(a.len() as int) =~= a);
    assert(a.take(0) =~= e);
    assert(Seq::<Seq<char>>::empty().push(a) =~= seq![a]);
}

/// A separator behind an unbroken text.
proof fn separator_parts(a: Seq<char>, sep: Seq<char>, rest: Seq<char>)
    requires
        is_unbroken(a),
        1 <= sep.len() <= 2,
        !is_quote(sep[0]),
        separator_at(a + sep + rest, a.len() as int) == sep.len(),
    ensures
        segments(a + sep + rest) == seq![a] + segments(rest),
{
    let s = a + sep + rest;
    let n = a.len() as int;
    let e = Seq::<char>::empty();
    assert(s.take(n) =~= a);
    unbroken_is_read(s, a, 0);
    assert(a.take(0) =~= e);
    assert(a.take(n) =~= a);
    let none = Seq::<Seq<char>>::empty();
    assert(s[n] == sep[0]);
    assert(segments(s) == segments_from(s, n, None, none, a));
    assert(segments(s) == segments_from(s, n + sep.len(), None, none.push(a), e));
    assert(none.push(a) =~= seq![a]);
    assert(s.skip(n + sep.len()) =~= rest);
    behind_is_read(s, rest, n + sep.len(), 0, None, seq![a], none, e);
    assert(seq![a] + none =~= seq![a]);
}

/// An unbroken text at the start of a script is read into the open part.
proof fn unbroken_is_read(s: Seq<char>, a: Seq<char>, i: int)
    requires
        is_unbroken(a),
        0 <= i <= a.len() <= s.len(),
        s.take(a.len() as int) == a,
    ensures
        segments_from(s, i, None, Seq::empty(), a.take(i)) == segments_from(
            s,
            a.len() as int,
            None,
            Seq::empty(),
            a,
        ),
    decreases a.len() - i,
{
    if i < a.len() {
        assert(s[i] == s.take(a.len() as int)[i]);
        assert(a.take(i).push(a[i]) =~= a.take(i + 1));
        unbroken_is_read(s, a, i + 1);
    } else {
        assert(a.take(i) =~= a);
    }
}

/// The end of a script is parted as it would be alone.
proof fn behind_is_read(
    s: Seq<char>,
    rest: Seq<char>,
    at: int,
    i: int,
    quote: Option<char>,
    before: Seq<Seq<char>>,
    done: Seq<Seq<char>>,
    cur: Seq<char>,
)
    requires
        0 <= at,
        0 <= i,
        at + rest.len() == s.len(),
        s.skip(at) == rest,
    ensures
        segments_from(s, at + i, quote, before + done, cur) == before + segments_from(
            rest,
            i,
            quote,
            done,
            cur,
        ),
    decreases rest.len() - i,
{
    if i >= rest.len() {
        assert((before + done).push(cur) =~= before + done.push(cur));
    } else {
        let c = rest[i];
        assert(s.skip(at)[i] == s[at + i]);
        if i + 1 < rest.len() {
            assert(s.skip(at)[i + 1] == s[at + i + 1]);
        }
        assert(separator_at(s, at + i) == separator_at(rest, i));
        match quote {
            Some(q) => {
                behind_is_read(
                    s,
                    rest,
                    at,
                    i + 1,
                    (if c == q {
                        None
                    } else {
                        quote
                    }),
                    before,
                    done,
                    cur.push(c),
                );
            },
            None => {
                if is_quote(c) {
                    behind_is_read(s, rest, at, i + 1, Some(c), before, done, cur.push(c));
                } else if separator_at(rest, i) > 0 {
                    assert((before + done).push(cur) =~= before + done.push(cur));
                    behind_is_read(
                        s,
                        rest,
                        at,
                        i + separator_at(rest, i),
                        None,
                        before,
                        done.push(cur),
                        Seq::empty(),
                    );
                } else {
                    behind_is_read(s, rest, at, i + 1, None, before, done, cur.push(c));
                }
            },
        }
    }
}

/// A script of one command in quotes is that command, unless it redirects, escapes, uses a
/// variable or calls a cmdlet that changes files or controls processes, in whatever case it is
/// written: then the script is refused.
pub proof fn law_commands_are_judged_by_their_words(ws: Seq<Seq<char>>, script: Seq<char>)
    requires
        ws.len() > 0,
        words(text::trimmed(script)) == Some(ws),
        segments(script) == seq![script],
    ensures
        ({
            let name = text::ascii_lowered(ws[0]);
            let refused = script.contains('>') || script.contains('<') || script.contains('`')
                || text::occurs(script, "--%"@) || (exists|i: int|
                0 <= i < ws.len() && (#[trigger] ws[i]).contains('$')) || name == "remove-item"@
                || name == "del"@ || name == "erase"@ || name == "rd"@ || name == "rmdir"@ || name
                == "move-item"@ || name == "copy-item"@ || name == "rename-item"@ || name
                == "new-item"@ || name == "out-file"@ || name == "set-content"@ || name
                == "add-content"@ || name == "clear-content"@ || name == "start-process"@ || name
                == "stop-process"@ || name == "stop-job"@ || name == "invoke-expression"@ || name
                == "iex"@;
            &&& refused ==> simple_commands(script) is None
            &&& !refused ==> simple_commands(script) == Some(seq![ws])
        }),
{
    let none = Seq::<Seq<Seq<char>>>::empty();
    let parts = segments(script);
    assert(parts.len() == 1 && parts[0] == script);
    assert(none.push(ws) =~= seq![ws]);
    if !has_dollar(ws) && !is_dangerous(text::ascii_lowered(ws[0])) {
        assert(commands_from(parts, 0, none) == commands_from(parts, 1, none.push(ws)));
        assert(commands_from(parts, 1, none.push(ws)) == Some(none.push(ws)));
    } else {
        assert(commands_from(parts, 0, none) is None);
    }
}

/// Words without quotes are what stands between white space.
pub proof fn law_plain_words_stand_between_white_space(word: Seq<char>, rest: Seq<char>, blank: char)
    requires
        word.len() > 0,
        forall|i: int|
            0 <= i < word.len() ==> !is_quote(#[trigger] word[i]) && !text::is_white(word[i]),
        text::is_white(blank),
        !is_quote(blank),
    ensures
        words(word) == Some(seq![word]),
        words(seq![blank] + rest) == words(rest),
        words(word + seq![blank] + rest) == (match words(rest) {
            Some(more) => Some(seq![word] + more),
            None => None,
        }),
{
    let e = Seq::<char>::empty();
    let none = Seq::<Seq<char>>::empty();
    assert(none.push(word) =~= seq![word]);
    assert(word.take(word.len() as int) =~= word);
    word_is_read(word, word, 0);
    assert(word.take(0) =~= e);
    let b = seq![blank] + rest;
    assert(b[0] == blank);
    assert(words(b) == words_from(b, 1, None, false, e, none));
    assert(b.skip(1) =~= rest);
    rest_is_read(b, rest, 1, 0, None, false, e, none, none);
    assert(none + none =~= none);
    let s = word + seq![blank] + rest;
    let n = word.len() as int;
    assert(s.take(n) =~= word);
    word_is_read(s, word, 0);
    assert(s[n] == blank);
    assert(words(s) == words_from(s, n, None, true, word, none));
    assert(words(s) == words_from(s, n + 1, None, false, e, none.push(word)));
    assert(s.skip(n + 1) =~= rest);
    rest_is_read(s, rest, n + 1, 0, None, false, e, seq![word], none);
    assert(seq![word] + none =~= seq![word]);
    match words(rest) {
        Some(more) => {
            assert(none + more =~= more);
        },
        None => {},
    }
}

/// A plain word at the start is read into the open word.
proof fn word_is_read(s: Seq<char>, word: Seq<char>, i: int)
    requires
        0 <= i <= word.len() <= s.len(),
        word.len() > 0,
        s.take(word.len() as int) == word,
        forall|k: int|
            0 <= k < word.len() ==> !is_quote(#[trigger] word[k]) && !text::is_white(word[k]),
    ensures
        words_from(s, i, None, i > 0, word.take(i), Seq::empty()) == words_from(
            s,
            word.len() as int,
            None,
            true,
            word,
            Seq::empty(),
        ),
    decreases word.len() - i,
{
    if i < word.len() {
        assert(s[i] == s.take(word.len() as int)[i]);
        assert(word.take(i).push(word[i]) =~= word.take(i + 1));
        word_is_read(s, word, i + 1);
    } else {
        assert(word.take(i) =~= word);
    }
}

/// The end of a command is read as it would be alone.
proof fn rest_is_read(
    s: Seq<char>,
    rest: Seq<char>,
    at: int,
    i: int,
    quote: Option<char>,
    in_word: bool,
    cur: Seq<char>,
    before: Seq<Seq<char>>,
    done: Seq<Seq<char>>,
)
    requires
        0 <= at,
        0 <= i,
        at + rest.len() == s.len(),
        s.skip(at) == rest,
    ensures
        words_from(s, at + i, quote, in_word, cur, before + done) == (match words_from(
            rest,
            i,
            quote,
            in_word,
            cur,
            done,
        ) {
            Some(more) => Some(before + more),
            None => None,
        }),
    decreases rest.len() - i,
{
    if i >= rest.len() {
        assert((before + done).push(cur) =~= before + done.push(cur));
    } else {
        let c = rest[i];
        assert(s.skip(at)[i] == s[at + i]);
        assert((before + done).push(cur) =~= before + done.push(cur));
        let e = Seq::<char>::empty();
        match quote {
            Some(q) => {
                if c == q {
                    rest_is_read(s, rest, at, i + 1, None, true, cur, before, done);
                } else {
                    rest_is_read(s, rest, at, i + 1, quote, true, cur.push(c), before, done);
                }
            },
            None => {
                if is_quote(c) {
                    rest_is_read(s, rest, at, i + 1, Some(c), true, cur, before, done);
                } else if text::is_white(c) {
                    if in_word {
                        rest_is_read(s, rest, at, i + 1, None, false, e, before, done.push(cur));
                    } else {
                        rest_is_read(s, rest, at, i + 1, None, false, cur, before, done);
                    }
                } else {
                    rest_is_read(s, rest, at, i + 1, None, true, cur.push(c), before, done);
                }
            },
        }
    }
}

} // verus!
