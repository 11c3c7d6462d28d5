//! Files that a message mentions: where they may lie, and how their content is put
//! behind the message.

use crate::chatwidget;
use crate::codex_shell::Platform;
use crate::file_tools;
use crate::text;
use vstd::prelude::*;

verus! {

/// How many bytes of a file are put behind a message.
pub const MENTION_CAP: usize = 16_000;

// ---------------------------------------------------------------------------
// Where files may lie
// ---------------------------------------------------------------------------

/// Whether a mention names a path below the workspace: it is not empty, has neither a
/// root nor a prefix, and does not lead upwards.
pub open spec fn leads_down(p: Platform, mention: Seq<char>) -> bool {
    &&& mention.len() > 0
    &&& file_tools::prefix_len(p, mention) == 0
    &&& !file_tools::rooted(p, mention)
    &&& !file_tools::components_of(p, mention).contains(file_tools::parent_component())
}

/// The file that a mention stands for, where `canonical` is the path that it leads to
/// on disk: the workspace has to hold it even so.
pub open spec fn mentioned_file(
    p: Platform,
    workspace: Seq<char>,
    mention: Seq<char>,
    canonical: Option<Seq<char>>,
) -> Option<Seq<char>> {
    match canonical {
        Some(path) => if leads_down(p, mention) && file_tools::begins_with(
            p,
            path,
            workspace,
        ) {
            Some(path)
        } else {
            None
        },
        None => None,
    }
}

/// Whether a mention names a path below the workspace.
fn is_downward(p: Platform, mention: &str) -> (r: bool)
    ensures
        r == leads_down(p, mention@),
{
    if mention.is_empty() || file_tools::prefix_length(p, mention) > 0 || file_tools::has_root(
        p,
        mention,
    ) {
        return false;
    }
    let comps = file_tools::components(p, mention);
    let ghost all = file_tools::components_of(p, mention@);
    let mut i: usize = 0;
    while i < comps.len()
        invariant
            i <= comps@.len(),
            all == text::views(comps@),
            all == file_tools::components_of(p, mention@),
            forall|k: int| 0 <= k < i ==> #[trigger] all[k] != file_tools::parent_component(),
        decreases comps@.len() - i,
    {
        assert(all[i as int] == comps@[i as int]@);
        let parent = text::same(comps[i].as_str(), "..");
        proof {
            reveal_strlit("..");
            assert(".."@ =~= file_tools::parent_component());
        }
        if parent {
            assert(all.contains(file_tools::parent_component()));
            return false;
        }
        i += 1;
    }
    true
}

/// The path that a mention stands for, before links are followed.
pub fn mention_path(p: Platform, workspace: &str, mention: &str) -> (r: Option<String>)
    ensures
        match r {
            Some(path) => leads_down(p, mention@) && path@ == file_tools::path_joined(
                p,
                workspace@,
                mention@,
            ),
            None => !leads_down(p, mention@),
        },
{
    if is_downward(p, mention) {
        Some(file_tools::join_path(p, workspace, mention))
    } else {
        None
    }
}

/// The file that a mention stands for, where `canonical` is the path that it leads to
/// on disk.
pub fn resolve_workspace_mention(
    p: Platform,
    workspace: &str,
    mention: &str,
    canonical: Option<String>,
) -> (r: Option<String>)
    ensures
        text::opt_view(r) == mentioned_file(p, workspace@, mention@, text::opt_view(canonical)),
{
    match canonical {
        Some(path) => {
            if is_downward(p, mention) && file_tools::starts_exactly(p, &path, workspace) {
                Some(path)
            } else {
                None
            }
        },
        None => None,
    }
}

// ---------------------------------------------------------------------------
// What is read of them
// ---------------------------------------------------------------------------

/// The bytes that are kept.
pub open spec fn kept_bytes(bytes: Seq<u8>, cap: nat) -> Seq<u8> {
    if bytes.len() > cap {
        bytes.take(cap as int)
    } else {
        bytes
    }
}

/// The text of a file, with a note where it was cut off.
pub open spec fn noted(t: Seq<char>, truncated: bool) -> Seq<char> {
    if truncated {
        t + "\n…(truncated)"@
    } else {
        t
    }
}

/// The text of a file, with a note where it was cut off.
pub fn note_truncation(t: String, truncated: bool) -> (r: String)
    ensures
        r@ == noted(t@, truncated),
{
    let mut out = t;
    if truncated {
        out.push_str("\n…(truncated)");
    }
    out
}

/// The text of what was read of a file, at most one byte more than the cap.
pub fn capped_text(bytes: Vec<u8>, cap: usize) -> (r: String)
    ensures
        r@ == noted(text::lossy_text(kept_bytes(bytes@, cap as nat)), bytes@.len() > cap),
        vstd::utf8::valid_utf8(kept_bytes(bytes@, cap as nat)) ==> r@ == noted(
            vstd::utf8::decode_utf8(kept_bytes(bytes@, cap as nat)),
            bytes@.len() > cap,
        ),
{
    let ghost all = bytes@;
    let mut buf = bytes;
    let truncated = buf.len() > cap;
    if truncated {
        buf.truncate(cap);
        assert(buf@ =~= all.take(cap as int));
    }
    let t = text::decode_lossy(buf.as_slice());
    note_truncation(t, truncated)
}

// ---------------------------------------------------------------------------
// The message
// ---------------------------------------------------------------------------

/// What is put behind the message for one file.
pub open spec fn file_section(mention: Seq<char>, content: Option<Seq<char>>) -> Seq<char> {
    "\n\n## @"@ + mention + (match content {
        Some(t) => "\n```\n"@ + t + "\n```"@,
        None => "\n(invalid or not found)"@,
    })
}

/// The content of the mention `i`.
pub open spec fn content_at(contents: Seq<Option<String>>, i: int) -> Option<Seq<char>> {
    if 0 <= i < contents.len() {
        text::opt_view(contents[i])
    } else {
        None
    }
}

/// What is put behind the message for the files from `i` on.
pub open spec fn sections_from(
    mentions: Seq<Seq<char>>,
    contents: Seq<Option<String>>,
    i: int,
) -> Seq<char>
    decreases mentions.len() - i,
{
    if i < 0 || i >= mentions.len() {
        Seq::empty()
    } else {
        file_section(mentions[i], content_at(contents, i)) + sections_from(
            mentions,
            contents,
            i + 1,
        )
    }
}

/// A message with the files that it mentions behind it.
pub open spec fn expanded(s: Seq<char>, contents: Seq<Option<String>>) -> Seq<char> {
    let mentions = chatwidget::mentions_from(s, 0);
    if mentions.len() == 0 {
        s
    } else {
        s + "\n\n# Referenced files"@ + sections_from(mentions, contents, 0)
    }
}

/// What is put behind the message for one file.
fn section(mention: &str, content: Option<&String>) -> (r: String)
    ensures
        r@ == file_section(
            mention@,
            match content {
                Some(t) => Some(t@),
                None => None,
            },
        ),
{
    let mut out = "\n\n## @".to_string();
    out.push_str(mention);
    match content {
        Some(t) => {
            let mut block = "\n```\n".to_string();
            block.push_str(t.as_str());
            block.push_str("\n```");
            out.push_str(&block);
        },
        None => out.push_str("\n(invalid or not found)"),
    }
    out
}

/// A message with the files that it mentions behind it, where `contents` holds what
/// was read for each mention.
pub fn expand_mentions(s: &str, contents: &Vec<Option<String>>) -> (r: String)
    ensures
        r@ == expanded(s@, contents@),
{
    let mentions = chatwidget::extract_mentions(s);
    let ghost all = chatwidget::mentions_from(s@, 0);
    let mut out = s.to_string();
    if mentions.len() == 0 {
        return out;
    }
    out.push_str("\n\n# Referenced files");
    let ghost goal = out@ + sections_from(all, contents@, 0);
    let mut i: usize = 0;
    while i < mentions.len()
        invariant
            i <= mentions@.len(),
            all == text::views(mentions@),
            goal == out@ + sections_from(all, contents@, i as int),
        decreases mentions@.len() - i,
    {
        let ghost before = out@;
        let content = if i < contents.len() {
            contents[i].as_ref()
        } else {
            None
        };
        let part = section(mentions[i].as_str(), content);
        assert(all[i as int] == mentions@[i as int]@);
        assert(part@ == file_section(all[i as int], content_at(contents@, i as int)));
        out.push_str(&part);
        assert(goal =~= before + part@ + sections_from(all, contents@, i + 1));
        i += 1;
    }
    assert(goal =~= out@);
    out
}

// ---------------------------------------------------------------------------
// Laws
// ---------------------------------------------------------------------------

/// Nothing outside the workspace is read for a mention: neither by an absolute path,
/// nor by a path upwards, nor through a link.
pub proof fn law_mentions_stay_in_the_workspace(
    p: Platform,
    workspace: Seq<char>,
    mention: Seq<char>,
    canonical: Option<Seq<char>>,
)
    ensures
        mentioned_file(p, workspace, mention, canonical) matches Some(path)
            ==> file_tools::begins_with(p, path, workspace),
        file_tools::absolute(p, mention) ==> mentioned_file(p, workspace, mention, canonical)
            is None,
        file_tools::components_of(p, mention).contains(file_tools::parent_component())
            ==> mentioned_file(p, workspace, mention, canonical) is None,
{
}

/// The message itself is kept: what is put behind it changes nothing of it.
pub proof fn law_expansion_keeps_the_message(s: Seq<char>, contents: Seq<Option<String>>)
    ensures
        text::begins(expanded(s, contents), s),
{
    let mentions = chatwidget::mentions_from(s, 0);
    if mentions.len() > 0 {
        assert(expanded(s, contents).take(s.len() as int) =~= s);
    } else {
        assert(s.take(s.len() as int) =~= s);
    }
}

/// A file that a message mentions stands below it, in order and each under its name, with what
/// is in it between fences, or with a word that it was not found.
pub proof fn law_mentioned_files_stand_below(
    s: Seq<char>,
    contents: Seq<Option<String>>,
    mentions: Seq<Seq<char>>,
    i: int,
)
    requires
        mentions == chatwidget::mentions_from(s, 0),
        0 <= i < mentions.len(),
    ensures
        mentions.len() > 0 ==> expanded(s, contents) == s + "\n\n# Referenced files"@
            + sections_from(mentions, contents, 0),
        sections_from(mentions, contents, mentions.len() as int).len() == 0,
        i < contents.len() && contents[i] is Some ==> sections_from(mentions, contents, i)
            == "\n\n## @"@ + mentions[i] + ("\n```\n"@ + contents[i]->0@ + "\n```"@)
            + sections_from(mentions, contents, i + 1),
        i >= contents.len() || contents[i] is None ==> sections_from(mentions, contents, i)
            == "\n\n## @"@ + mentions[i] + "\n(invalid or not found)"@ + sections_from(
            mentions,
            contents,
            i + 1,
        ),
{
}

/// Of a file, no more bytes are kept than the cap, from its start, and all where it is no
/// longer; a text that was cut off says so.
pub proof fn law_long_files_are_cut_off(bytes: Seq<u8>, cap: nat, t: Seq<char>)
    ensures
        kept_bytes(bytes, cap).len() <= cap,
        kept_bytes(bytes, cap) == bytes.take(kept_bytes(bytes, cap).len() as int),
        bytes.len() <= cap ==> kept_bytes(bytes, cap) == bytes,
        bytes.len() > cap ==> kept_bytes(bytes, cap).len() == cap,
        noted(t, false) == t,
        noted(t, true) == t + "\n…(truncated)"@,
{
    assert(bytes.take(bytes.len() as int) =~= bytes);
}

} // verus!
