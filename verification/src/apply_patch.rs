//! The `apply_patch` tool: patches in the `*** Begin Patch` format, matched
//! against files line by line with some tolerance for white space and
//! punctuation, and applied as a whole or not at all.

use crate::apply_patch::plan::{FileFact, Plan, PreparedChange};
use crate::file_tools::FsCtx;
use crate::text;
use vstd::prelude::*;

pub mod engine;
pub mod plan;
pub mod replacements;
pub mod seek_sequence;
pub mod written;

verus! {

/// What is reported of one change: what was done, to which file, and for a move
/// where it went.
#[derive(Debug)]
pub struct ReportEntry {
    pub action: String,
    pub path: String,
    pub to: Option<String>,
}

/// What is reported of one change.
#[verifier::ext_equal]
pub struct ReportView {
    pub action: Seq<char>,
    pub path: Seq<char>,
    pub to: Option<Seq<char>>,
}

impl View for ReportEntry {
    type V = ReportView;

    open spec fn view(&self) -> ReportView {
        ReportView { action: self.action@, path: self.path@, to: text::opt_view(self.to) }
    }
}

/// The texts of a report.
pub open spec fn report_views(v: Seq<ReportEntry>) -> Seq<ReportView> {
    Seq::new(v.len(), |i: int| v[i]@)
}

/// What is reported of one change.
pub open spec fn reported(change: plan::ChangeView) -> ReportView {
    match change {
        plan::ChangeView::Add { path, contents } => ReportView {
            action: "add"@,
            path,
            to: None,
        },
        plan::ChangeView::Delete { path } => ReportView { action: "delete"@, path, to: None },
        plan::ChangeView::Update { path, contents } => ReportView {
            action: "update"@,
            path,
            to: None,
        },
        plan::ChangeView::Move { from, to, contents } => ReportView {
            action: "move"@,
            path: from,
            to: Some(to),
        },
    }
}

/// The report on some changes, in their order.
pub fn report(changes: &Vec<PreparedChange>) -> (r: Vec<ReportEntry>)
    ensures
        report_views(r@) == plan::change_views(changes@).map_values(
            |c: plan::ChangeView| reported(c),
        ),
{
    let ghost all = plan::change_views(changes@);
    let ghost whole = all.map_values(|c: plan::ChangeView| reported(c));
    let mut out: Vec<ReportEntry> = Vec::new();
    let mut i: usize = 0;
    while i < changes.len()
        invariant
            i <= changes@.len(),
            all == plan::change_views(changes@),
            whole == all.map_values(|c: plan::ChangeView| reported(c)),
            report_views(out@) == whole.take(i as int),
        decreases changes@.len() - i,
    {
        let ghost before = report_views(out@);
        assert(all[i as int] == changes@[i as int]@);
        let entry = match &changes[i] {
            PreparedChange::Add { path, .. } => ReportEntry {
                action: "add".to_owned(),
                path: path.clone(),
                to: None,
            },
            PreparedChange::Delete { path } => ReportEntry {
                action: "delete".to_owned(),
                path: path.clone(),
                to: None,
            },
            PreparedChange::Update { path, .. } => ReportEntry {
                action: "update".to_owned(),
                path: path.clone(),
                to: None,
            },
            PreparedChange::Move { from, to, .. } => ReportEntry {
                action: "move".to_owned(),
                path: from.clone(),
                to: Some(to.clone()),
            },
        };
        assert(entry@ == whole[i as int]);
        out.push(entry);
        assert(report_views(out@) =~= before.push(entry@));
        assert(whole.take(i + 1) =~= whole.take(i as int).push(entry@));
        i += 1;
    }
    assert(whole.take(whole.len() as int) =~= whole);
    out
}

/// The tool that applies patches.
pub struct ApplyPatchTool {
    pub ctx: FsCtx,
}

impl ApplyPatchTool {
    /// A tool for the given context.
    pub fn new(ctx: FsCtx) -> (r: Self)
        ensures
            r.ctx == ctx,
    {
        ApplyPatchTool { ctx }
    }

    /// The name of the tool.
    pub fn name(&self) -> (r: &'static str)
        ensures
            r@ == "apply_patch"@,
    {
        "apply_patch"
    }

    /// Checks a patch against what is on disk and plans it.
    pub fn call(&self, patch: &str, disk: &Vec<FileFact>) -> (r: Result<Plan, String>)
        ensures
            plan::plan_view(r) == plan::planned(
                patch@,
                self.ctx@,
                plan::fact_views(disk@),
            ),
    {
        plan::apply(patch, &self.ctx, disk)
    }
}

/// A tool for the given context.
pub fn make(ctx: FsCtx) -> (r: ApplyPatchTool)
    ensures
        r.ctx == ctx,
{
    ApplyPatchTool::new(ctx)
}

/// What is reported of a change names what was done and to which file, and of a move where it
/// went.
pub proof fn law_reports_name_the_change(change: plan::ChangeView)
    ensures
        reported(change).path == plan::paths_of(change)[0],
        reported(change).to == (if change is Move {
            Some(plan::paths_of(change)[1])
        } else {
            None
        }),
        change is Add ==> reported(change).action == seq!['a', 'd', 'd'],
        change is Delete ==> reported(change).action == seq!['d', 'e', 'l', 'e', 't', 'e'],
        change is Update ==> reported(change).action == seq!['u', 'p', 'd', 'a', 't', 'e'],
        change is Move ==> reported(change).action == seq!['m', 'o', 'v', 'e'],
{
    reveal_strlit("add");
    reveal_strlit("delete");
    reveal_strlit("update");
    reveal_strlit("move");
    assert("add"@ =~= seq!['a', 'd', 'd']);
    assert("delete"@ =~= seq!['d', 'e', 'l', 'e', 't', 'e']);
    assert("update"@ =~= seq!['u', 'p', 'd', 'a', 't', 'e']);
    assert("move"@ =~= seq!['m', 'o', 'v', 'e']);
}

} // verus!
