//! Text of the chat: mentions of files, and what is shown of tools.

use crate::agent::AgentType;
use crate::diff_render;
use crate::diff_render::{DiffLine, DiffLineView};
use crate::json;
use crate::json::{ArgValue, ArgValueView};
use crate::style;
use crate::style::{Line, Span, SpanView, Tone};
use crate::text;
use crate::transcript;
use crate::transcript::{
    Cell, CellView, ToolArgs, ToolArgsView, ToolEntry, ToolValue, ToolValueView, ToolView,
};
use vstd::prelude::*;

verus! {

// ---------------------------------------------------------------------------
// Characters of a mention
// ---------------------------------------------------------------------------

/// What `char::is_alphanumeric` says of a character.
pub uninterp spec fn alphanumeric_of(c: char) -> bool;

/// `char::is_alphanumeric` tells letters and digits of all scripts from other
/// characters. It is a function of the character alone. Which characters outside
/// ASCII count is left unsaid.
pub assume_specification[ char::is_alphanumeric ](c: char) -> (r: bool)
    ensures
        r == alphanumeric_of(c),
;

/// Whether a character is a letter or a digit.
pub open spec fn is_alphanumeric(c: char) -> bool {
    if c as u32 <= 127 {
        ('a' <= c && c <= 'z') || ('A' <= c && c <= 'Z') || ('0' <= c && c <= '9')
    } else {
        alphanumeric_of(c)
    }
}

/// Whether a character can stand in the path of a mention.
pub open spec fn in_mention(c: char) -> bool {
    is_alphanumeric(c) || c == '/' || c == '.' || c == '_' || c == '-'
}

/// Whether a character can stand in the path of a mention.
pub fn is_mention_char(c: char) -> (r: bool)
    ensures
        r == in_mention(c),
{
    let alphanumeric = if c as u32 <= 127 {
        ('a' <= c && c <= 'z') || ('A' <= c && c <= 'Z') || ('0' <= c && c <= '9')
    } else {
        c.is_alphanumeric()
    };
    alphanumeric || c == '/' || c == '.' || c == '_' || c == '-'
}

/// The end of the run of mention characters that stands at `i`.
pub open spec fn run_end(s: Seq<char>, i: int) -> int
    decreases s.len() - i,
{
    if i < 0 || i >= s.len() || !in_mention(s[i]) {
        i
    } else {
        run_end(s, i + 1)
    }
}

/// A run ends inside the text.
pub proof fn run_end_inside(s: Seq<char>, i: int)
    requires
        0 <= i <= s.len(),
    ensures
        i <= run_end(s, i) <= s.len(),
        i < s.len() && in_mention(s[i]) ==> i < run_end(s, i),
    decreases s.len() - i,
{
    if i < s.len() && in_mention(s[i]) {
        run_end_inside(s, i + 1);
    }
}

/// The end of the run of mention characters that stands at `i`.
fn find_run_end(s: &Vec<char>, i: usize) -> (r: usize)
    requires
        i <= s@.len(),
    ensures
        r as int == run_end(s@, i as int),
        i <= r <= s@.len(),
{
    let mut j: usize = i;
    while j < s.len() && is_mention_char(s[j])
        invariant
            i <= j <= s@.len(),
            run_end(s@, j as int) == run_end(s@, i as int),
        decreases s@.len() - j,
    {
        j += 1;
    }
    j
}

/// The place of the next quotation mark from `i` on, or the end.
pub open spec fn quote_end(s: Seq<char>, i: int) -> int
    decreases s.len() - i,
{
    if i < 0 || i >= s.len() || s[i] == '"' {
        i
    } else {
        quote_end(s, i + 1)
    }
}

/// A quotation ends inside the text.
pub proof fn quote_end_inside(s: Seq<char>, i: int)
    requires
        0 <= i <= s.len(),
    ensures
        i <= quote_end(s, i) <= s.len(),
    decreases s.len() - i,
{
    if i < s.len() && s[i] != '"' {
        quote_end_inside(s, i + 1);
    }
}

/// The place of the next quotation mark from `i` on.
fn find_quote_end(s: &Vec<char>, i: usize) -> (r: usize)
    requires
        i <= s@.len(),
    ensures
        r as int == quote_end(s@, i as int),
        i <= r <= s@.len(),
{
    let mut j: usize = i;
    while j < s.len() && s[j] != '"'
        invariant
            i <= j <= s@.len(),
            quote_end(s@, j as int) == quote_end(s@, i as int),
        decreases s@.len() - j,
    {
        j += 1;
    }
    j
}

/// Whether a mention can begin at `i`: an at sign at the start or behind white
/// space, with something behind it.
pub open spec fn opens_mention(s: Seq<char>, i: int) -> bool {
    &&& 0 <= i
    &&& i + 1 < s.len()
    &&& s[i] == '@'
    &&& i == 0 || text::is_white(s[i - 1])
}

/// Whether the mention at `i` is quoted: there is something between two quotation
/// marks behind the at sign.
pub open spec fn is_quoted(s: Seq<char>, i: int) -> bool {
    &&& s[i + 1] == '"'
    &&& i + 2 < quote_end(s, i + 2) < s.len()
}

/// The mentions from `i` on.
pub open spec fn mentions_from(s: Seq<char>, i: int) -> Seq<Seq<char>>
    decreases s.len() - i,
{
    if i < 0 || i >= s.len() {
        Seq::empty()
    } else if !opens_mention(s, i) {
        mentions_from(s, i + 1)
    } else if is_quoted(s, i) {
        let end = quote_end(s, i + 2);
        seq![s.subrange(i + 2, end)] + mentions_from(s, end + 1)
    } else if !in_mention(s[i + 1]) {
        mentions_from(s, i + 1)
    } else {
        proof {
            run_end_inside(s, i + 1);
        }
        let end = run_end(s, i + 1);
        seq![s.subrange(i + 1, end)] + mentions_from(s, end)
    }
}

/// The paths that a text mentions: behind an at sign, up to the first character
/// that cannot stand in a path, or in quotation marks.
pub fn extract_mentions(s: &str) -> (r: Vec<String>)
    ensures
        text::views(r@) == mentions_from(s@, 0),
{
    let chars = text::chars_of(s);
    let ghost goal = mentions_from(s@, 0);
    let mut out: Vec<String> = Vec::new();
    let mut i: usize = 0;
    assert(text::views(out@) + goal =~= goal);
    while i < chars.len()
        invariant
            i <= chars@.len(),
            chars@ == s@,
            goal == text::views(out@) + mentions_from(s@, i as int),
        decreases chars@.len() - i,
    {
        let n: usize = chars.len();
        let opens = chars[i] == '@' && i + 1 < n && (i == 0 || text::is_whitespace(chars[i - 1]));
        if !opens {
            i += 1;
            continue ;
        }
        let ghost before = out@;
        if chars[i + 1] == '"' {
            let end: usize = find_quote_end(&chars, i + 2);
            if end < n && i + 2 < end {
                let run = text::string_of_range(&chars, i + 2, end);
                out.push(run);
                assert(text::views(out@) =~= text::views(before).push(run@));
                assert(text::views(before) + (seq![run@] + mentions_from(s@, end + 1))
                    =~= text::views(out@) + mentions_from(s@, end + 1));
                i = end + 1;
                continue ;
            }
        }
        if !is_mention_char(chars[i + 1]) {
            i += 1;
            continue ;
        }
        let end: usize = find_run_end(&chars, i + 1);
        proof {
            run_end_inside(s@, i + 1);
        }
        let run = text::string_of_range(&chars, i + 1, end);
        out.push(run);
        assert(text::views(out@) =~= text::views(before).push(run@));
        assert(text::views(before) + (seq![run@] + mentions_from(s@, end as int)) =~= text::views(
            out@,
        ) + mentions_from(s@, end as int));
        i = end;
    }
    assert(text::views(out@) + mentions_from(s@, i as int) =~= text::views(out@));
    out
}

// ---------------------------------------------------------------------------
// Messages of the user
// ---------------------------------------------------------------------------

/// The spans of a line from `i` on, where `plain` holds what was read since the
/// last mention.
pub open spec fn marked_from(s: Seq<char>, i: int, plain: Seq<char>) -> Seq<SpanView>
    decreases s.len() - i,
{
    let done = if plain.len() > 0 {
        seq![style::span(plain, Tone::Plain)]
    } else {
        Seq::<SpanView>::empty()
    };
    if i < 0 || i >= s.len() {
        done
    } else if s[i] == '@' && i + 1 < s.len() && in_mention(s[i + 1]) {
        proof {
            run_end_inside(s, i + 1);
        }
        let end = run_end(s, i + 1);
        done + (seq![style::span(s.subrange(i, end), Tone::Cyan)] + marked_from(
            s,
            end,
            Seq::empty(),
        ))
    } else {
        marked_from(s, i + 1, plain.push(s[i]))
    }
}

/// A line with its mentions marked.
fn mark_line(s: &str) -> (r: Line)
    ensures
        r@ == marked_from(s@, 0, Seq::empty()),
{
    let chars = text::chars_of(s);
    let ghost goal = marked_from(s@, 0, Seq::empty());
    let mut line = Line::empty();
    let mut plain: Vec<char> = Vec::new();
    let mut i: usize = 0;
    assert(line@ + goal =~= goal);
    assert(plain@ =~= Seq::<char>::empty());
    while i < chars.len()
        invariant
            i <= chars@.len(),
            chars@ == s@,
            goal == line@ + marked_from(s@, i as int, plain@),
        decreases chars@.len() - i,
    {
        let n: usize = chars.len();
        if chars[i] == '@' && i + 1 < n && is_mention_char(chars[i + 1]) {
            let ghost before = line@;
            let end: usize = find_run_end(&chars, i + 1);
            proof {
                run_end_inside(s@, i + 1);
            }
            if plain.len() > 0 {
                line.add(Span::of(text::string_of(&plain), Tone::Plain));
            }
            let run = text::string_of_range(&chars, i, end);
            line.add(Span::of(run, Tone::Cyan));
            assert(before + marked_from(s@, i as int, plain@) =~= line@ + marked_from(
                s@,
                end as int,
                Seq::empty(),
            ));
            plain = Vec::new();
            assert(plain@ =~= Seq::<char>::empty());
            i = end;
        } else {
            plain.push(chars[i]);
            i += 1;
        }
    }
    let ghost before = line@;
    if plain.len() > 0 {
        line.add(Span::of(text::string_of(&plain), Tone::Plain));
    }
    assert(line@ =~= before + marked_from(s@, i as int, plain@));
    line
}

/// The lines of a message with its mentions marked.
pub open spec fn user_lines(s: Seq<char>) -> Seq<Seq<SpanView>> {
    text::pieces(s, '\n').map_values(|line: Seq<char>| marked_from(line, 0, Seq::empty()))
}

/// The lines of a message with its mentions marked.
pub fn render_user_text(s: &str) -> (r: Vec<Line>)
    ensures
        style::line_views(r@) == user_lines(s@),
{
    let pieces = text::split_on(s, '\n');
    let ghost all = text::pieces(s@, '\n');
    let mut out: Vec<Line> = Vec::new();
    let mut i: usize = 0;
    assert(style::line_views(out@) =~= user_lines(s@).take(0));
    while i < pieces.len()
        invariant
            i <= pieces@.len(),
            all == text::views(pieces@),
            all == text::pieces(s@, '\n'),
            style::line_views(out@) == user_lines(s@).take(i as int),
        decreases pieces@.len() - i,
    {
        let line = mark_line(&pieces[i]);
        assert(all[i as int] == pieces@[i as int]@);
        let ghost before = out@;
        out.push(line);
        proof {
            style::line_views_push(before, line);
        }
        assert(user_lines(s@)[i as int] == line@);
        assert(user_lines(s@).take(i + 1) =~= user_lines(s@).take(i as int).push(line@));
        i += 1;
    }
    assert(user_lines(s@).take(i as int) =~= user_lines(s@));
    out
}

// ---------------------------------------------------------------------------
// Tools
// ---------------------------------------------------------------------------

/// A text cut to a number of characters, with an ellipsis where something is left
/// out.
pub open spec fn truncated(s: Seq<char>, max: int) -> Seq<char> {
    if s.len() <= max {
        s
    } else {
        s.take(max).push('…')
    }
}

/// Cuts a text to a number of characters.
pub fn truncate(s: &str, max: usize) -> (r: String)
    ensures
        r@ == truncated(s@, max as int),
{
    let chars = text::chars_of(s);
    if chars.len() <= max {
        return s.to_string();
    }
    let mut t = text::string_of_range(&chars, 0, max);
    assert(t@ =~= s@.take(max as int));
    t.push('…');
    t
}

/// The text of an argument, if there is one and it is a text.
pub open spec fn arg_text(args: ToolArgsView, name: Seq<char>) -> Option<Seq<char>> {
    json::text_named(args.args, name)
}

/// The text of an argument.
pub fn text_arg(args: &ToolArgs, name: &str) -> (r: Option<String>)
    ensures
        text::opt_view(r) == arg_text(args@, name@),
{
    json::find_text(&args.args, name)
}

/// A text, or a default where there is none.
pub open spec fn or_else(o: Option<Seq<char>>, d: Seq<char>) -> Seq<char> {
    match o {
        Some(s) => s,
        None => d,
    }
}

/// The text of an argument, or a default.
fn text_arg_or(args: &ToolArgs, name: &str, default: &str) -> (r: String)
    ensures
        r@ == or_else(arg_text(args@, name@), default@),
{
    match text_arg(args, name) {
        Some(s) => s,
        None => default.to_string(),
    }
}

/// What `format!` with the debug form makes of a text.
pub uninterp spec fn debug_form(s: Seq<char>) -> Seq<char>;

/// `format!` with `{:?}` of std puts a text into quotation marks and escapes what
/// is in it. The result is a function of the text alone. How each character is
/// escaped is left unsaid.
#[verifier::external_body]
fn quote_debug(s: &str) -> (r: String)
    ensures
        r@ == debug_form(s@),
{
    format!("{:?}", s)
}

/// The summary of a delegation: the argument `summary`, or `brief` where there is
/// no `summary` at all.
pub open spec fn delegation_summary(args: ToolArgsView) -> Seq<char> {
    if json::arg_named(args.args, 0, "summary"@) is Some {
        or_else(arg_text(args, "summary"@), Seq::empty())
    } else {
        or_else(arg_text(args, "brief"@), Seq::empty())
    }
}

/// Whether a delegation waits for its answer.
pub open spec fn delegation_blocks(args: ToolArgsView) -> bool {
    match json::arg_named(args.args, 0, "blocking"@) {
        Some(ArgValueView::Flag(b)) => b,
        _ => true,
    }
}

/// `true` or `false`.
pub open spec fn flag_text(b: bool) -> Seq<char> {
    if b {
        "true"@
    } else {
        "false"@
    }
}

/// What is said of the arguments of a tool, where `quoted` is the summary among
/// them in its debug form.
pub open spec fn arg_summary(name: Seq<char>, args: ToolArgsView, quoted: Seq<char>) -> Seq<char> {
    if name == "send_to_agent"@ {
        or_else(arg_text(args, "agent_type"@), "?"@) + ", summary="@ + quoted + ", blocking="@
            + flag_text(delegation_blocks(args))
    } else if name == "respond"@ {
        "task_id="@ + or_else(arg_text(args, "task_id"@), "?"@) + ", type="@ + or_else(
            arg_text(args, "type"@),
            "?"@,
        ) + ", summary="@ + quoted
    } else if name == "manifest"@ {
        "action="@ + or_else(arg_text(args, "action"@), "read"@) + ", agent="@ + or_else(
            arg_text(args, "agent"@),
            "self"@,
        )
    } else {
        args.json
    }
}

/// The summary among the arguments of a tool.
pub open spec fn summary_arg(name: Seq<char>, args: ToolArgsView) -> Seq<char> {
    if name == "send_to_agent"@ {
        delegation_summary(args)
    } else {
        or_else(arg_text(args, "summary"@), Seq::empty())
    }
}

/// Puts a summary together, where `quoted` is the summary among the arguments in
/// its debug form.
pub fn assemble_summary(name: &str, args: &ToolArgs, quoted: &str) -> (r: String)
    ensures
        r@ == arg_summary(name@, args@, quoted@),
{
    let mut out = String::new();
    assert(out@ =~= Seq::<char>::empty());
    if text::same(name, "send_to_agent") {
        out.push_str(&text_arg_or(args, "agent_type", "?"));
        out.push_str(", summary=");
        out.push_str(quoted);
        out.push_str(", blocking=");
        let blocking = match json::locate_arg(&args.args, "blocking") {
            Some(i) => match &args.args[i].value {
                ArgValue::Flag(b) => *b,
                _ => true,
            },
            None => true,
        };
        if blocking {
            out.push_str("true");
        } else {
            out.push_str("false");
        }
        assert(out@ =~= arg_summary(name@, args@, quoted@));
    } else if text::same(name, "respond") {
        out.push_str("task_id=");
        out.push_str(&text_arg_or(args, "task_id", "?"));
        out.push_str(", type=");
        out.push_str(&text_arg_or(args, "type", "?"));
        out.push_str(", summary=");
        out.push_str(quoted);
        assert(out@ =~= arg_summary(name@, args@, quoted@));
    } else if text::same(name, "manifest") {
        out.push_str("action=");
        out.push_str(&text_arg_or(args, "action", "read"));
        out.push_str(", agent=");
        out.push_str(&text_arg_or(args, "agent", "self"));
        assert(out@ =~= arg_summary(name@, args@, quoted@));
    } else {
        out.push_str(&args.json);
        assert(out@ =~= arg_summary(name@, args@, quoted@));
    }
    out
}

/// What is said of the arguments of a tool.
pub fn tool_arg_summary(name: &str, args: &ToolArgs) -> (r: String)
    ensures
        r@ == arg_summary(name@, args@, debug_form(summary_arg(name@, args@))),
{
    let empty = "";
    proof {
        reveal_strlit("");
        assert(""@ =~= Seq::<char>::empty());
    }
    let summary = if text::same(name, "send_to_agent") {
        match json::locate_arg(&args.args, "summary") {
            Some(_) => text_arg_or(args, "summary", empty),
            None => text_arg_or(args, "brief", empty),
        }
    } else {
        text_arg_or(args, "summary", empty)
    };
    let quoted = quote_debug(&summary);
    assemble_summary(name, args, &quoted)
}

/// Whether a line of a patch is not shown.
pub open spec fn is_noise(t: Seq<char>) -> bool {
    t == "*** Begin Patch"@ || t == "*** End Patch"@ || t == "*** End File"@ || t == "@@"@
        || text::begins(t, "@@ "@) || text::begins(t, "*** Move to"@)
}

/// The file that a line of a patch names.
pub open spec fn named_file(t: Seq<char>) -> Option<Seq<char>> {
    match text::after_prefix(t, "*** Update File: "@) {
        Some(rest) => Some(rest),
        None => match text::after_prefix(t, "*** Add File: "@) {
            Some(rest) => Some(rest),
            None => text::after_prefix(t, "*** Delete File: "@),
        },
    }
}

/// What is shown of a line of a patch.
pub open spec fn patch_line(line: Seq<char>) -> Seq<char> {
    let t = text::trimmed_start(line);
    if is_noise(t) {
        Seq::empty()
    } else {
        match named_file(t) {
            Some(rest) => "--- "@ + rest + "\n"@,
            None => line + "\n"@,
        }
    }
}

/// What is shown of the first `n` lines of a patch.
pub open spec fn patch_text(lines: Seq<Seq<char>>, n: int) -> Seq<char>
    decreases n,
{
    if n <= 0 {
        Seq::empty()
    } else {
        patch_text(lines, n - 1) + patch_line(lines[n - 1])
    }
}

/// What is shown of a patch: its changes, with the files as headers.
pub fn filter_patch(patch: &str) -> (r: String)
    ensures
        r@ == patch_text(text::lines_of(patch@), text::lines_of(patch@).len() as int),
{
    let lines = text::lines(patch);
    let ghost all = text::lines_of(patch@);
    let mut out = String::new();
    let mut i: usize = 0;
    assert(out@ =~= patch_text(all, 0));
    while i < lines.len()
        invariant
            i <= lines@.len(),
            all == text::views(lines@),
            all == text::lines_of(patch@),
            out@ == patch_text(all, i as int),
        decreases lines@.len() - i,
    {
        let line = &lines[i];
        assert(all[i as int] == line@);
        let ghost before = out@;
        let t = text::trim_start(line);
        let noise = text::same(&t, "*** Begin Patch") || text::same(&t, "*** End Patch")
            || text::same(&t, "*** End File") || text::same(&t, "@@") || text::starts_with(
            &t,
            "@@ ",
        ) || text::starts_with(&t, "*** Move to");
        if !noise {
            let named = match text::strip_prefix(&t, "*** Update File: ") {
                Some(rest) => Some(rest),
                None => match text::strip_prefix(&t, "*** Add File: ") {
                    Some(rest) => Some(rest),
                    None => text::strip_prefix(&t, "*** Delete File: "),
                },
            };
            match named {
                Some(rest) => {
                    out.push_str("--- ");
                    out.push_str(&rest);
                    out.push_str("\n");
                },
                None => {
                    out.push_str(line);
                    out.push_str("\n");
                },
            }
        }
        assert(out@ =~= before + patch_line(all[i as int]));
        i += 1;
    }
    out
}

/// The changes that a tool makes to files, as a diff, where `edit` is the diff of
/// the texts that it edits.
pub open spec fn change_text(name: Seq<char>, args: ToolArgsView, edit: Seq<char>) -> Option<
    Seq<char>,
> {
    if name == "apply_patch"@ {
        match arg_text(args, "patch"@) {
            Some(p) => Some(patch_text(text::lines_of(p), text::lines_of(p).len() as int)),
            None => None,
        }
    } else if name == "edit_file"@ {
        if arg_text(args, "old_text"@) is Some && arg_text(args, "new_text"@) is Some {
            Some(edit)
        } else {
            None
        }
    } else if name == "write_file"@ {
        if arg_text(args, "content"@) is Some {
            Some(edit)
        } else {
            None
        }
    } else {
        None
    }
}

/// The diff of the texts that a tool edits.
pub open spec fn edit_diff(name: Seq<char>, args: ToolArgsView) -> Seq<char> {
    let old_text = if name == "edit_file"@ {
        or_else(arg_text(args, "old_text"@), Seq::empty())
    } else {
        Seq::empty()
    };
    let new_text = if name == "edit_file"@ {
        or_else(arg_text(args, "new_text"@), Seq::empty())
    } else {
        or_else(arg_text(args, "content"@), Seq::empty())
    };
    match diff_render::diff_of(old_text, new_text) {
        Some(d) => d,
        None => Seq::empty(),
    }
}

/// The lines of a diff that is not blank.
pub open spec fn change_lines(raw: Option<Seq<char>>) -> Option<Seq<DiffLineView>> {
    match raw {
        Some(d) => if text::trimmed(d).len() == 0 {
            None
        } else {
            Some(diff_render::shown_diff(d))
        },
        None => None,
    }
}

/// What lines of a diff hold.
pub open spec fn opt_diff(o: Option<Vec<DiffLine>>) -> Option<Seq<DiffLineView>> {
    match o {
        Some(v) => Some(diff_render::diff_line_views(v@)),
        None => None,
    }
}

/// The changes that a tool makes to files, line by line.
pub fn render_file_change_lines(name: &str, args: &ToolArgs) -> (r: Option<Vec<DiffLine>>)
    ensures
        opt_diff(r) == change_lines(change_text(name@, args@, edit_diff(name@, args@))),
{
    let raw = if text::same(name, "apply_patch") {
        match text_arg(args, "patch") {
            Some(p) => filter_patch(&p),
            None => {
                return None;
            },
        }
    } else if text::same(name, "edit_file") {
        let old_text = text_arg(args, "old_text");
        if old_text.is_none() {
            return None;
        }
        match text_arg(args, "new_text") {
            Some(new_text) => diff_render::unified_diff(&old_text, &new_text),
            None => {
                return None;
            },
        }
    } else if text::same(name, "write_file") {
        match text_arg(args, "content") {
            Some(content) => diff_render::unified_diff(&None, &content),
            None => {
                return None;
            },
        }
    } else {
        return None;
    };
    if text::trim(&raw).as_str().is_empty() {
        return None;
    }
    Some(diff_render::render(&raw))
}

/// The text of what a tool gave back.
pub open spec fn value_text(v: ToolValueView) -> Seq<char> {
    match v {
        ToolValueView::Text(s) => s,
        ToolValueView::Json(s) => s,
    }
}

/// The text of what a tool gave back.
pub fn pretty(v: &ToolValue) -> (r: String)
    ensures
        r@ == value_text(v@),
{
    match v {
        ToolValue::Text(s) => s.as_str().to_string(),
        ToolValue::Json(s) => s.as_str().to_string(),
    }
}

/// The most characters of a result that are shown.
pub const RESULT_LIMIT: usize = 400;

/// What is shown of a result: changes to files, or lines of text.
#[derive(Debug)]
pub enum ResultLines {
    Changes(Vec<DiffLine>),
    Dimmed(Vec<String>),
}

/// What is shown of a result.
pub enum ResultLinesView {
    Changes(Seq<DiffLineView>),
    Dimmed(Seq<Seq<char>>),
}

impl View for ResultLines {
    type V = ResultLinesView;

    open spec fn view(&self) -> ResultLinesView {
        match self {
            ResultLines::Changes(v) => ResultLinesView::Changes(diff_render::diff_line_views(v@)),
            ResultLines::Dimmed(v) => ResultLinesView::Dimmed(text::views(v@)),
        }
    }
}

/// What is shown of a result, where `changes` are the changes that the tool makes.
pub open spec fn result_lines(
    changes: Option<Seq<DiffLineView>>,
    result: Option<ToolValueView>,
    error: Option<Seq<char>>,
) -> ResultLinesView {
    match error {
        Some(e) => ResultLinesView::Dimmed(
            text::lines_of(e).map_values(|l: Seq<char>| "Error: "@ + l),
        ),
        None => match result {
            None => ResultLinesView::Dimmed(Seq::empty()),
            Some(v) => match changes {
                Some(c) => ResultLinesView::Changes(c),
                None => ResultLinesView::Dimmed(
                    text::lines_of(truncated(value_text(v), RESULT_LIMIT as int)),
                ),
            },
        },
    }
}

/// What is shown of a result.
pub fn render_tool_result_lines(
    name: &str,
    args: &ToolArgs,
    result: &Option<ToolValue>,
    error: &Option<String>,
) -> (r: ResultLines)
    ensures
        r@ == result_lines(
            change_lines(change_text(name@, args@, edit_diff(name@, args@))),
            transcript::opt_value(*result),
            text::opt_view(*error),
        ),
{
    if let Some(e) = error {
        let lines = text::lines(e);
        let ghost all = text::lines_of(e@);
        let ghost goal = all.map_values(|l: Seq<char>| "Error: "@ + l);
        let mut out: Vec<String> = Vec::new();
        let mut i: usize = 0;
        assert(text::views(out@) =~= goal.take(0));
        while i < lines.len()
            invariant
                i <= lines@.len(),
                all == text::views(lines@),
                goal == all.map_values(|l: Seq<char>| "Error: "@ + l),
                text::views(out@) == goal.take(i as int),
            decreases lines@.len() - i,
        {
            let mut line = "Error: ".to_string();
            line.push_str(&lines[i]);
            assert(all[i as int] == lines@[i as int]@);
            let ghost before = out@;
            out.push(line);
            assert(text::views(out@) =~= text::views(before).push(line@));
            assert(goal.take(i + 1) =~= goal.take(i as int).push(goal[i as int]));
            i += 1;
        }
        assert(goal.take(i as int) =~= goal);
        return ResultLines::Dimmed(out);
    }
    match result {
        None => {
            let none: Vec<String> = Vec::new();
            assert(text::views(none@) =~= Seq::<Seq<char>>::empty());
            ResultLines::Dimmed(none)
        },
        Some(v) => match render_file_change_lines(name, args) {
            Some(lines) => ResultLines::Changes(lines),
            None => ResultLines::Dimmed(text::lines(&truncate(&pretty(v), RESULT_LIMIT))),
        },
    }
}

// ---------------------------------------------------------------------------
// What an agent is doing
// ---------------------------------------------------------------------------

/// The last of the first `n` calls that is under way.
pub open spec fn last_open(items: Seq<ToolView>, n: int) -> Option<int>
    decreases n,
{
    if n <= 0 {
        None
    } else if transcript::is_open(items[n - 1]) {
        Some(n - 1)
    } else {
        last_open(items, n - 1)
    }
}

/// The last call of an agent that is under way, in the last of the first `n` cells
/// that has one.
pub open spec fn open_call(cells: Seq<CellView>, n: int, who: AgentType) -> Option<ToolView>
    decreases n,
{
    if n <= 0 {
        None
    } else {
        let items = transcript::calls_of(cells[n - 1]);
        match last_open(items, items.len() as int) {
            Some(k) => if transcript::groups(cells[n - 1], who) {
                Some(items[k])
            } else {
                open_call(cells, n - 1, who)
            },
            None => open_call(cells, n - 1, who),
        }
    }
}

/// What is said of a call: the tool, and its arguments where something is said of
/// them.
pub open spec fn call_text(name: Seq<char>, summary: Seq<char>) -> Seq<char> {
    if summary.len() == 0 {
        name
    } else {
        name + " · "@ + summary
    }
}

/// What is said of the work of an agent.
pub open spec fn work_text(call: Option<ToolView>) -> Option<Seq<char>> {
    match call {
        None => None,
        Some(t) => Some(
            call_text(t.name, arg_summary(t.name, t.args, debug_form(summary_arg(t.name, t.args)))),
        ),
    }
}

/// The place of the last call that is under way.
fn locate_open(items: &Vec<ToolEntry>) -> (r: Option<usize>)
    ensures
        (match r {
            Some(k) => Some(k as int),
            None => None::<int>,
        }) == last_open(transcript::tool_views(items@), items@.len() as int),
        r matches Some(k) ==> k < items@.len(),
{
    let mut n: usize = items.len();
    while n > 0
        invariant
            n <= items@.len(),
            last_open(transcript::tool_views(items@), n as int) == last_open(
                transcript::tool_views(items@),
                items@.len() as int,
            ),
        decreases n,
    {
        assert(transcript::tool_views(items@)[n - 1] == items@[n - 1]@);
        if items[n - 1].result.is_none() && items[n - 1].error.is_none() {
            return Some(n - 1);
        }
        n -= 1;
    }
    None
}

/// What is said of the work of an agent: the call of it that is under way.
pub fn active_status_context(cells: &Vec<Cell>, who: AgentType) -> (r: Option<String>)
    ensures
        text::opt_view(r) == work_text(
            open_call(transcript::cell_views(cells@), cells@.len() as int, who),
        ),
{
    let ghost all = transcript::cell_views(cells@);
    let mut n: usize = cells.len();
    while n > 0
        invariant
            n <= cells@.len(),
            all == transcript::cell_views(cells@),
            open_call(all, n as int, who) == open_call(all, cells@.len() as int, who),
        decreases n,
    {
        assert(all[n - 1] == cells@[n - 1]@);
        if let Cell::ToolGroup { agent, items } = &cells[n - 1] {
            if *agent == who {
                assert(transcript::tool_views(items@).len() == items@.len());
                if let Some(k) = locate_open(items) {
                    let item = &items[k];
                    assert(transcript::tool_views(items@)[k as int] == item@);
                    let summary = tool_arg_summary(&item.name, &item.args);
                    let mut out = item.name.as_str().to_string();
                    if !summary.as_str().is_empty() {
                        out.push_str(" · ");
                        out.push_str(&summary);
                    }
                    assert(out@ =~= call_text(item@.name, summary@));
                    return Some(out);
                }
            }
        }
        n -= 1;
    }
    None
}

// ---------------------------------------------------------------------------
// Laws
// ---------------------------------------------------------------------------

/// Whether a part of a text can be a mention: it is not empty, and it holds no
/// quotation mark.
pub open spec fn is_mention(m: Seq<char>) -> bool {
    m.len() > 0 && !m.contains('"')
}

/// Mentions are never empty and never hold a quotation mark.
pub proof fn law_mentions_are_paths(s: Seq<char>, i: int)
    requires
        0 <= i <= s.len(),
    ensures
        forall|k: int|
            0 <= k < mentions_from(s, i).len() ==> is_mention(#[trigger] mentions_from(s, i)[k]),
    decreases s.len() - i,
{
    if i < s.len() {
        if !opens_mention(s, i) {
            law_mentions_are_paths(s, i + 1);
            assert(mentions_from(s, i) == mentions_from(s, i + 1));
        } else if is_quoted(s, i) {
            quote_end_inside(s, i + 2);
            let end = quote_end(s, i + 2);
            law_mentions_are_paths(s, end + 1);
            quote_free(s, i + 2);
            let m = s.subrange(i + 2, end);
            assert(is_mention(m));
            let tail = mentions_from(s, end + 1);
            assert forall|k: int| 0 <= k < mentions_from(s, i).len() implies is_mention(
                #[trigger] mentions_from(s, i)[k],
            ) by {
                if k > 0 {
                    assert(mentions_from(s, i)[k] == tail[k - 1]);
                }
            }
        } else if !in_mention(s[i + 1]) {
            law_mentions_are_paths(s, i + 1);
            assert(mentions_from(s, i) == mentions_from(s, i + 1));
        } else {
            run_end_inside(s, i + 1);
            let end = run_end(s, i + 1);
            law_mentions_are_paths(s, end);
            run_is_plain(s, i + 1);
            let m = s.subrange(i + 1, end);
            assert(is_mention(m));
            let tail = mentions_from(s, end);
            assert forall|k: int| 0 <= k < mentions_from(s, i).len() implies is_mention(
                #[trigger] mentions_from(s, i)[k],
            ) by {
                if k > 0 {
                    assert(mentions_from(s, i)[k] == tail[k - 1]);
                }
            }
        }
    }
}

/// Before the quotation mark that is found there is none.
proof fn quote_free(s: Seq<char>, i: int)
    requires
        0 <= i <= s.len(),
    ensures
        forall|k: int| i <= k < quote_end(s, i) ==> #[trigger] s[k] != '"',
    decreases s.len() - i,
{
    if i < s.len() && s[i] != '"' {
        quote_free(s, i + 1);
    }
}

/// A run holds no quotation mark.
proof fn run_is_plain(s: Seq<char>, i: int)
    requires
        0 <= i <= s.len(),
    ensures
        forall|k: int| i <= k < run_end(s, i) ==> #[trigger] s[k] != '"',
    decreases s.len() - i,
{
    if i < s.len() && in_mention(s[i]) {
        run_is_plain(s, i + 1);
    }
}

/// A text that is cut off begins as it did, is as long as is allowed, and shows an ellipsis; one
/// that is short enough stays.
pub proof fn law_long_texts_are_cut_off(s: Seq<char>, max: int)
    requires
        0 <= max,
    ensures
        s.len() <= max ==> truncated(s, max) == s,
        s.len() > max ==> {
            &&& truncated(s, max).len() == max + 1
            &&& truncated(s, max).take(max) == s.take(max)
            &&& truncated(s, max).last() == '…'
        },
{
    if s.len() > max {
        assert(truncated(s, max).take(max) =~= s.take(max));
    }
}

/// Of a patch, the lines that change a file are shown as they are, under the name of the file;
/// the lines that only hold the patch together are not.
pub proof fn law_patches_are_shown_by_file(path: Seq<char>, line: Seq<char>)
    ensures
        patch_line("*** Update File: "@ + path) == "--- "@ + path + "\n"@,
        patch_line("*** Add File: "@ + path) == "--- "@ + path + "\n"@,
        patch_line("*** Delete File: "@ + path) == "--- "@ + path + "\n"@,
        patch_line(seq!['+'] + line) == seq!['+'] + line + "\n"@,
        patch_line(seq!['-'] + line) == seq!['-'] + line + "\n"@,
        patch_line("*** Begin Patch"@).len() == 0,
        patch_line("*** End Patch"@).len() == 0,
        patch_line("@@ "@ + line).len() == 0,
        patch_line("*** Move to"@ + line).len() == 0,
{
    patch_marks_begin();
    let u = "*** Update File: "@ + path;
    let a = "*** Add File: "@ + path;
    let d = "*** Delete File: "@ + path;
    assert(u[4] == 'U' && u[0] == '*' && u[5] == 'p');
    assert(a[4] == 'A' && a[0] == '*');
    assert(d[4] == 'D' && d[0] == '*');
    text::law_ascii_white_space('*');
    text::law_ascii_white_space('+');
    text::law_ascii_white_space('-');
    text::law_ascii_white_space('@');
    unbroken_start(u);
    unbroken_start(a);
    unbroken_start(d);
    unbroken_start("*** Begin Patch"@);
    unbroken_start("*** End Patch"@);
    marked_differently(u, 'U');
    marked_differently(a, 'A');
    marked_differently(d, 'D');
    assert(u.skip(17) =~= path);
    assert(u.take(17) =~= "*** Update File: "@);
    assert(a.skip(14) =~= path);
    assert(a.take(14) =~= "*** Add File: "@);
    assert(d.skip(17) =~= path);
    assert(d.take(17) =~= "*** Delete File: "@);
    let plus = seq!['+'] + line;
    let minus = seq!['-'] + line;
    assert(plus[0] == '+' && minus[0] == '-');
    unbroken_start(plus);
    unbroken_start(minus);
    plain_lines_stay(plus);
    plain_lines_stay(minus);
    let at = "@@ "@ + line;
    let mv = "*** Move to"@ + line;
    assert(at[0] == '@' && mv[0] == '*');
    unbroken_start(at);
    unbroken_start(mv);
    assert(at.take(3) =~= "@@ "@);
    assert(mv.take(11) =~= "*** Move to"@);
}

/// How the lines begin that hold a patch together.
proof fn patch_marks_begin()
    ensures
        "*** Begin Patch"@.len() == 15 && "*** Begin Patch"@[0] == '*' && "*** Begin Patch"@[4] == 'B',
        "*** End Patch"@.len() == 13 && "*** End Patch"@[0] == '*' && "*** End Patch"@[4] == 'E',
        "*** End File"@.len() == 12 && "*** End File"@[0] == '*' && "*** End File"@[4] == 'E',
        "*** Move to"@.len() == 11 && "*** Move to"@[0] == '*' && "*** Move to"@[4] == 'M',
        "*** Update File: "@.len() == 17 && "*** Update File: "@[0] == '*' && "*** Update File: "@[4]
            == 'U' && "*** Update File: "@[5] == 'p',
        "*** Add File: "@.len() == 14 && "*** Add File: "@[0] == '*' && "*** Add File: "@[4] == 'A',
        "*** Delete File: "@.len() == 17 && "*** Delete File: "@[0] == '*' && "*** Delete File: "@[4]
            == 'D',
        "@@"@.len() == 2 && "@@"@[0] == '@',
        "@@ "@.len() == 3 && "@@ "@[0] == '@',
{
    reveal_strlit("*** Begin Patch");
    reveal_strlit("*** End Patch");
    reveal_strlit("*** End File");
    reveal_strlit("*** Move to");
    reveal_strlit("*** Update File: ");
    reveal_strlit("*** Add File: ");
    reveal_strlit("*** Delete File: ");
    reveal_strlit("@@");
    reveal_strlit("@@ ");
}

/// A text that begins with no white space has none at its start.
proof fn unbroken_start(s: Seq<char>)
    requires
        s.len() > 0,
        !text::is_white(s[0]),
    ensures
        text::trimmed_start(s) == s,
{
}

/// A line that names a file is told apart by its fifth character.
proof fn marked_differently(t: Seq<char>, c: char)
    requires
        t.len() > 5,
        t[0] == '*',
        t[4] == c,
        c == 'U' || c == 'A' || c == 'D',
    ensures
        !is_noise(t),
        c != 'U' ==> !text::begins(t, "*** Update File: "@),
        c != 'A' ==> !text::begins(t, "*** Add File: "@),
        c != 'D' ==> !text::begins(t, "*** Delete File: "@),
{
    patch_marks_begin();
    if text::begins(t, "*** Move to"@) {
        assert(t.take(11)[4] == t[4]);
    }
    if text::begins(t, "@@ "@) {
        assert(t.take(3)[0] == t[0]);
    }
    if text::begins(t, "*** Update File: "@) {
        assert(t.take(17)[4] == t[4]);
    }
    if text::begins(t, "*** Add File: "@) {
        assert(t.take(14)[4] == t[4]);
    }
    if text::begins(t, "*** Delete File: "@) {
        assert(t.take(17)[4] == t[4]);
    }
}

/// A line that begins otherwise is no mark.
proof fn plain_lines_stay(t: Seq<char>)
    requires
        t.len() > 0,
        t[0] != '*',
        t[0] != '@',
    ensures
        !is_noise(t),
        named_file(t) is None,
{
    patch_marks_begin();
    if text::begins(t, "*** Move to"@) {
        assert(t.take(11)[0] == t[0]);
    }
    if text::begins(t, "@@ "@) {
        assert(t.take(3)[0] == t[0]);
    }
    if text::begins(t, "*** Update File: "@) {
        assert(t.take(17)[0] == t[0]);
    }
    if text::begins(t, "*** Add File: "@) {
        assert(t.take(14)[0] == t[0]);
    }
    if text::begins(t, "*** Delete File: "@) {
        assert(t.take(17)[0] == t[0]);
    }
}

/// An error is shown whatever else came, each line of it as an error; a tool that changed files
/// shows the changes; any other shows what it gave back, cut off where it is long; and a call
/// that gave back nothing yet shows nothing.
pub proof fn law_results_show_what_came(
    changes: Option<Seq<DiffLineView>>,
    result: Option<ToolValueView>,
    error: Option<Seq<char>>,
    i: int,
)
    ensures
        ({
            let shown = result_lines(changes, result, error);
            &&& error is Some ==> {
                &&& shown matches ResultLinesView::Dimmed(lines)
                &&& lines.len() == text::lines_of(error->0).len()
                &&& 0 <= i < lines.len() ==> lines[i] == "Error: "@ + text::lines_of(error->0)[i]
            }
            &&& error is None && result is None ==> shown == ResultLinesView::Dimmed(Seq::empty())
            &&& error is None && result is Some && changes is Some ==> shown
                == ResultLinesView::Changes(changes->0)
            &&& error is None && changes is None ==> (result matches Some(ToolValueView::Text(s))
                ==> shown == ResultLinesView::Dimmed(
                text::lines_of(truncated(s, RESULT_LIMIT as int)),
            ))
        }),
{
}

} // verus!
