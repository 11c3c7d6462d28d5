//! The commands that can be typed behind a slash.

use crate::app_command;
use crate::app_command::Command;
use crate::bottom_pane::popup_state;
use crate::bottom_pane::popup_state::{EntryView, SlashEntry};
use crate::text;
use vstd::prelude::*;

verus! {

/// An entry.
pub open spec fn entry(name: Seq<char>, description: Seq<char>) -> EntryView {
    EntryView { name, description }
}

/// All commands, in the order in which they are offered.
pub open spec fn catalog() -> Seq<EntryView> {
    seq![
        entry("agent"@, "switch the active agent thread (picker)"@),
        entry("switch"@, "focus an agent"@),
        entry("sessions"@, "list this project's persisted sessions"@),
        entry("config"@, "view & edit API settings"@),
        entry("model"@, "assign main/sub APIs and model names"@),
        entry("env"@, "select Python and inspect local tool readiness"@),
        entry("clear"@, "clear the terminal and start a new chat"@),
        entry("compact"@, "compact focused agent's context"@),
        entry("new"@, "reset focused agent"@),
        entry("copy"@, "copy the last assistant response"@),
        entry("pager"@, "open the transcript pager"@),
        entry("manifest"@, "show produced files"@),
        entry("index"@, "rebuild the @ file index"@),
        entry("ide"@, "toggle IDE context injection (open file + selection)"@),
        entry("quit"@, "exit"@),
    ]
}

/// The commands from `i` on whose names begin with what was typed.
pub open spec fn offered(all: Seq<EntryView>, i: int, typed: Seq<char>) -> Seq<EntryView>
    decreases all.len() - i,
{
    if i < 0 || i >= all.len() {
        Seq::empty()
    } else if text::begins(all[i].name, typed) {
        seq![all[i]] + offered(all, i + 1, typed)
    } else {
        offered(all, i + 1, typed)
    }
}

/// Adds an entry.
fn add_entry(out: &mut Vec<SlashEntry>, name: &str, description: &str)
    ensures
        popup_state::entry_views(final(out)@) == popup_state::entry_views(old(out)@).push(entry(name@, description@)),
{
    let ghost before = out@;
    let e = SlashEntry { name: name.to_string(), description: description.to_string() };
    out.push(e);
    assert(popup_state::entry_views(out@) =~= popup_state::entry_views(before).push(e@));
}

/// All commands.
pub fn all_commands() -> (r: Vec<SlashEntry>)
    ensures
        popup_state::entry_views(r@) == catalog(),
{
    let mut out: Vec<SlashEntry> = Vec::new();
    assert(popup_state::entry_views(out@) =~= Seq::<EntryView>::empty());
    add_entry(&mut out, "agent", "switch the active agent thread (picker)");
    add_entry(&mut out, "switch", "focus an agent");
    add_entry(&mut out, "sessions", "list this project's persisted sessions");
    add_entry(&mut out, "config", "view & edit API settings");
    add_entry(&mut out, "model", "assign main/sub APIs and model names");
    add_entry(&mut out, "env", "select Python and inspect local tool readiness");
    add_entry(&mut out, "clear", "clear the terminal and start a new chat");
    add_entry(&mut out, "compact", "compact focused agent's context");
    add_entry(&mut out, "new", "reset focused agent");
    add_entry(&mut out, "copy", "copy the last assistant response");
    add_entry(&mut out, "pager", "open the transcript pager");
    add_entry(&mut out, "manifest", "show produced files");
    add_entry(&mut out, "index", "rebuild the @ file index");
    add_entry(&mut out, "ide", "toggle IDE context injection (open file + selection)");
    add_entry(&mut out, "quit", "exit");
    assert(popup_state::entry_views(out@) =~= catalog());
    out
}

/// The commands whose names begin with what was typed.
pub fn matches(typed: &str) -> (r: Vec<SlashEntry>)
    ensures
        popup_state::entry_views(r@) == offered(catalog(), 0, typed@),
{
    let commands = all_commands();
    let ghost all = catalog();
    let ghost goal = offered(all, 0, typed@);
    let mut out: Vec<SlashEntry> = Vec::new();
    let mut i: usize = 0;
    assert(popup_state::entry_views(out@) + goal =~= goal);
    while i < commands.len()
        invariant
            i <= commands@.len(),
            all == popup_state::entry_views(commands@),
            goal == popup_state::entry_views(out@) + offered(all, i as int, typed@),
        decreases commands@.len() - i,
    {
        let c = &commands[i];
        assert(all[i as int] == c@);
        if text::starts_with(&c.name, typed) {
            let ghost before = popup_state::entry_views(out@);
            add_entry(&mut out, &c.name, &c.description);
            assert(before + (seq![c@] + offered(all, i + 1, typed@)) =~= popup_state::entry_views(out@)
                + offered(all, i + 1, typed@));
        }
        i += 1;
    }
    assert(popup_state::entry_views(out@) + offered(all, i as int, typed@) =~= popup_state::entry_views(out@));
    out
}

/// What is offered begins with what was typed.
pub proof fn law_offers_complete_the_input(all: Seq<EntryView>, i: int, typed: Seq<char>)
    requires
        0 <= i <= all.len(),
    ensures
        forall|k: int|
            0 <= k < offered(all, i, typed).len() ==> text::begins(
                (#[trigger] offered(all, i, typed)[k]).name,
                typed,
            ),
    decreases all.len() - i,
{
    if i < all.len() {
        law_offers_complete_the_input(all, i + 1, typed);
        let tail = offered(all, i + 1, typed);
        if text::begins(all[i].name, typed) {
            assert forall|k: int| 0 <= k < offered(all, i, typed).len() implies text::begins(
                (#[trigger] offered(all, i, typed)[k]).name,
                typed,
            ) by {
                if k > 0 {
                    assert(offered(all, i, typed)[k] == tail[k - 1]);
                }
            }
        } else {
            assert(offered(all, i, typed) == tail);
        }
    }
}

/// Every command that is offered is one that can be run.
pub proof fn law_offered_commands_can_be_run(i: int)
    requires
        0 <= i < catalog().len(),
    ensures
        app_command::command_of(catalog()[i].name) != Command::Unknown,
        app_command::command_of(catalog()[i].name) != Command::Nothing,
{
    reveal(app_command::command_of);
    reveal_strlit("agent");
    reveal_strlit("switch");
    reveal_strlit("sessions");
    reveal_strlit("config");
    reveal_strlit("model");
    reveal_strlit("env");
    reveal_strlit("clear");
    reveal_strlit("compact");
    reveal_strlit("new");
    reveal_strlit("copy");
    reveal_strlit("pager");
    reveal_strlit("manifest");
    reveal_strlit("index");
    reveal_strlit("ide");
    reveal_strlit("quit");
}

} // verus!
