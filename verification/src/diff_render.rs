//! Differences between two versions of a text, and how they are shown.

use crate::text;
use vstd::prelude::*;

verus! {

/// The unified diff that `diffy` makes of two texts, without the message on a
/// missing line feed at the end.
pub uninterp spec fn diffy_patch(old_text: Seq<char>, new_text: Seq<char>) -> Seq<char>;

/// Calls `diffy::create_patch` and formats the patch with
/// `diffy::PatchFormatter::fmt_patch`, the message on a missing final line feed
/// switched off. The text is a function of the two versions alone. Which lines
/// count as kept is left unsaid.
#[verifier::external_body]
fn create_patch(old_text: &str, new_text: &str) -> (r: String)
    ensures
        r@ == diffy_patch(old_text@, new_text@),
{
    diffy::PatchFormatter::new()
        .missing_newline_message(false)
        .fmt_patch(&diffy::create_patch(old_text, new_text))
        .to_string()
}

/// The unified diff of two texts; equal texts have none.
pub open spec fn diff_of(old_text: Seq<char>, new_text: Seq<char>) -> Option<Seq<char>> {
    if old_text == new_text {
        None
    } else {
        Some(diffy_patch(old_text, new_text))
    }
}

/// The unified diff of two texts, if they differ.
pub fn diff_if_changed(old_text: &str, new_text: &str) -> (r: Option<String>)
    ensures
        text::opt_view(r) == diff_of(old_text@, new_text@),
{
    if text::same(old_text, new_text) {
        None
    } else {
        Some(create_patch(old_text, new_text))
    }
}

/// The unified diff of two versions of a file, where the old one may be missing.
/// It is empty when nothing changed.
pub fn unified_diff(old_text: &Option<String>, new_text: &str) -> (r: String)
    ensures
        r@ == (match diff_of(
            (match *old_text {
                Some(s) => s@,
                None => Seq::empty(),
            }),
            new_text@,
        ) {
            Some(d) => d,
            None => Seq::empty(),
        }),
{
    let base = match old_text {
        Some(s) => s.clone(),
        None => String::new(),
    };
    match diff_if_changed(&base, new_text) {
        Some(d) => d,
        None => String::new(),
    }
}

// ---------------------------------------------------------------------------
// Showing
// ---------------------------------------------------------------------------

/// What a line of a diff is.
#[derive(Debug, Clone, Copy, PartialEq, Eq, Structural)]
pub enum DiffSign {
    /// A file or section header.
    Header,
    Added,
    Removed,
    Context,
}

/// A line of a diff as it is shown: what it is, the mark in the gutter, and the
/// text behind it.
#[derive(Debug)]
pub struct DiffLine {
    pub sign: DiffSign,
    pub gutter: String,
    pub body: String,
}

/// A line of a diff as it is shown.
#[verifier::ext_equal]
pub struct DiffLineView {
    pub sign: DiffSign,
    pub gutter: Seq<char>,
    pub body: Seq<char>,
}

impl View for DiffLine {
    type V = DiffLineView;

    open spec fn view(&self) -> DiffLineView {
        DiffLineView { sign: self.sign, gutter: self.gutter@, body: self.body@ }
    }
}

/// The texts of shown lines.
pub open spec fn diff_line_views(v: Seq<DiffLine>) -> Seq<DiffLineView> {
    Seq::new(v.len(), |i: int| v[i]@)
}

/// Whether a line of a diff is a header.
pub open spec fn is_header(raw: Seq<char>) -> bool {
    text::begins(raw, "--- "@) || text::begins(raw, "+++ "@) || text::begins(raw, "@@"@)
}

/// How a line of a diff is shown. The sign at its start moves into the gutter.
pub open spec fn shown_line(raw: Seq<char>) -> DiffLineView {
    if is_header(raw) {
        DiffLineView { sign: DiffSign::Header, gutter: Seq::empty(), body: raw }
    } else if raw.len() > 0 && raw[0] == '+' {
        DiffLineView { sign: DiffSign::Added, gutter: "+ "@, body: raw.skip(1) }
    } else if raw.len() > 0 && raw[0] == '-' {
        DiffLineView { sign: DiffSign::Removed, gutter: "- "@, body: raw.skip(1) }
    } else if raw.len() > 0 && raw[0] == ' ' {
        DiffLineView { sign: DiffSign::Context, gutter: "  "@, body: raw.skip(1) }
    } else {
        DiffLineView { sign: DiffSign::Context, gutter: "  "@, body: raw }
    }
}

/// How a line of a diff is shown.
fn render_line(raw: &str) -> (r: DiffLine)
    ensures
        r@ == shown_line(raw@),
{
    if text::starts_with(raw, "--- ") || text::starts_with(raw, "+++ ") || text::starts_with(
        raw,
        "@@",
    ) {
        return DiffLine {
            sign: DiffSign::Header,
            gutter: String::new(),
            body: raw.to_owned(),
        };
    }
    let chars = text::chars_of(raw);
    if chars.len() > 0 && (chars[0] == '+' || chars[0] == '-' || chars[0] == ' ') {
        let body = text::string_of_range(&chars, 1, chars.len());
        assert(body@ =~= raw@.skip(1));
        if chars[0] == '+' {
            DiffLine { sign: DiffSign::Added, gutter: "+ ".to_owned(), body }
        } else if chars[0] == '-' {
            DiffLine { sign: DiffSign::Removed, gutter: "- ".to_owned(), body }
        } else {
            DiffLine { sign: DiffSign::Context, gutter: "  ".to_owned(), body }
        }
    } else {
        DiffLine { sign: DiffSign::Context, gutter: "  ".to_owned(), body: raw.to_owned() }
    }
}

/// How all lines of a diff are shown.
pub open spec fn shown_diff(diff: Seq<char>) -> Seq<DiffLineView> {
    text::lines_of(diff).map_values(|raw: Seq<char>| shown_line(raw))
}

/// How a unified diff is shown, line by line.
pub fn render(diff: &str) -> (r: Vec<DiffLine>)
    ensures
        diff_line_views(r@) == shown_diff(diff@),
{
    let lines = text::lines(diff);
    let ghost all = text::lines_of(diff@);
    let mut out: Vec<DiffLine> = Vec::new();
    let mut i: usize = 0;
    while i < lines.len()
        invariant
            i <= lines@.len(),
            all == text::views(lines@),
            diff_line_views(out@) == all.take(i as int).map_values(
                |raw: Seq<char>| shown_line(raw),
            ),
        decreases lines@.len() - i,
    {
        let ghost before = diff_line_views(out@);
        assert(all[i as int] == lines@[i as int]@);
        let line = render_line(&lines[i]);
        out.push(line);
        assert(diff_line_views(out@) =~= before.push(line@));
        assert(all.take(i + 1).map_values(|raw: Seq<char>| shown_line(raw)) =~= all.take(
            i as int,
        ).map_values(|raw: Seq<char>| shown_line(raw)).push(line@));
        i += 1;
    }
    assert(all.take(all.len() as int) =~= all);
    out
}

// ---------------------------------------------------------------------------
// Colours
// ---------------------------------------------------------------------------

/// How many colours a terminal shows.
#[derive(Debug, Clone, Copy, PartialEq, Eq, Structural)]
pub enum ColorLevel {
    TrueColor,
    Ansi256,
    Ansi16,
    Unknown,
}

/// A colour by its red, green and blue parts.
#[derive(Debug, Clone, Copy, PartialEq, Eq, Structural)]
pub struct Rgb {
    pub red: u8,
    pub green: u8,
    pub blue: u8,
}

/// The background behind added and removed lines. A terminal with few colours
/// has none.
pub open spec fn background(light: bool, sign: DiffSign, level: ColorLevel) -> Option<Rgb> {
    if level == ColorLevel::Ansi16 || level == ColorLevel::Unknown {
        None
    } else {
        match sign {
            DiffSign::Added => if light {
                Some(Rgb { red: 218, green: 251, blue: 225 })
            } else {
                Some(Rgb { red: 33, green: 58, blue: 43 })
            },
            DiffSign::Removed => if light {
                Some(Rgb { red: 255, green: 235, blue: 233 })
            } else {
                Some(Rgb { red: 74, green: 34, blue: 29 })
            },
            _ => None,
        }
    }
}

/// The background behind a line of a diff.
pub fn line_bg(theme_light: bool, sign: DiffSign, level: ColorLevel) -> (r: Option<Rgb>)
    ensures
        r == background(theme_light, sign, level),
{
    match level {
        ColorLevel::Ansi16 | ColorLevel::Unknown => None,
        ColorLevel::TrueColor | ColorLevel::Ansi256 => match sign {
            DiffSign::Added => {
                if theme_light {
                    Some(Rgb { red: 218, green: 251, blue: 225 })
                } else {
                    Some(Rgb { red: 33, green: 58, blue: 43 })
                }
            },
            DiffSign::Removed => {
                if theme_light {
                    Some(Rgb { red: 255, green: 235, blue: 233 })
                } else {
                    Some(Rgb { red: 74, green: 34, blue: 29 })
                }
            },
            DiffSign::Header => None,
            DiffSign::Context => None,
        },
    }
}

/// A line of a diff is shown with its sign in front and its text behind: added lines with a
/// plus, removed ones with a minus, and kept ones with a blank. Headers stand alone.
pub proof fn law_signs_move_to_the_gutter(s: Seq<char>)
    ensures
        !text::begins(seq!['+'] + s, "+++ "@) ==> shown_line(seq!['+'] + s) == (DiffLineView {
            sign: DiffSign::Added,
            gutter: "+ "@,
            body: s,
        }),
        !text::begins(seq!['-'] + s, "--- "@) ==> shown_line(seq!['-'] + s) == (DiffLineView {
            sign: DiffSign::Removed,
            gutter: "- "@,
            body: s,
        }),
        shown_line(seq![' '] + s) == (DiffLineView {
            sign: DiffSign::Context,
            gutter: "  "@,
            body: s,
        }),
        text::begins(s, "--- "@) || text::begins(s, "+++ "@) || text::begins(s, "@@"@)
            ==> shown_line(s) == (DiffLineView {
            sign: DiffSign::Header,
            gutter: Seq::empty(),
            body: s,
        }),
{
    reveal_strlit("--- ");
    reveal_strlit("+++ ");
    reveal_strlit("@@");
    assert("--- "@[0] == '-' && "+++ "@[0] == '+' && "@@"@[0] == '@');
    let a = seq!['+'] + s;
    let b = seq!['-'] + s;
    let c = seq![' '] + s;
    assert(a[0] == '+' && b[0] == '-' && c[0] == ' ');
    assert(a.skip(1) =~= s);
    assert(b.skip(1) =~= s);
    assert(c.skip(1) =~= s);
}

/// Each line of a diff is shown, in order. Two texts have a diff unless they are equal.
pub proof fn law_diffs_are_shown_line_by_line(diff: Seq<char>, i: int, a: Seq<char>, b: Seq<char>)
    ensures
        shown_diff(diff).len() == text::lines_of(diff).len(),
        0 <= i < text::lines_of(diff).len() ==> shown_diff(diff)[i] == shown_line(
            text::lines_of(diff)[i],
        ),
        diff_of(a, b) is None <==> a == b,
{
}

} // verus!
