//! Patches: what they say, what they do to files, and what they refuse.

use autoreport::apply_patch::engine::{check_patch_boundaries, parse, parse_update_chunks, Hunk};
use autoreport::apply_patch::plan::{
    apply, failure_message, find_pending_for_path, parent_path, paths_to_inspect, plan_backups,
    restore_backup, secure_write, Backup, FileFact, FileKind, FsAction, PreparedChange,
    RestoreStep,
};
use autoreport::apply_patch::replacements::{apply_replacements, update_contents, Replacement};
use autoreport::apply_patch::seek_sequence::{first_match, normalise, seek_sequence, Tolerance};
use autoreport::apply_patch::{make, ApplyPatchTool};
use autoreport::codex_shell::Platform;
use autoreport::file_tools::FsCtx;

const WORKSPACE: &str = "/ws";

/// Files by their names in the workspace.
type Files = Vec<(String, String)>;

fn ctx() -> FsCtx {
    FsCtx::new(WORKSPACE.to_string(), Some(WORKSPACE.to_string()), Platform::Unix)
}

fn files(list: &[(&str, &str)]) -> Files {
    list.iter()
        .map(|(n, c)| (format!("{WORKSPACE}/{n}"), c.to_string()))
        .collect()
}

fn read(all: &Files, name: &str) -> Option<String> {
    let path = format!("{WORKSPACE}/{name}");
    all.iter().find(|(n, _)| *n == path).map(|(_, c)| c.clone())
}

fn facts(paths: &[String], all: &Files) -> Vec<FileFact> {
    paths
        .iter()
        .map(|p| match all.iter().find(|(n, _)| n == p) {
            Some((_, c)) => FileFact {
                path: p.clone(),
                kind: FileKind::File,
                contents: Ok(c.clone()),
            },
            None => FileFact {
                path: p.clone(),
                kind: FileKind::Missing,
                contents: Err("no such file".to_string()),
            },
        })
        .collect()
}

/// Applies a patch to files that are held in memory.
fn run_in(ctx: &FsCtx, patch: &str, all: &mut Files) -> Result<Vec<PreparedChange>, String> {
    let hunks = parse(patch)?;
    let disk = facts(&paths_to_inspect(&hunks, ctx), all);
    let plan = apply(patch, ctx, &disk)?;
    for action in plan.actions {
        match action {
            FsAction::Write { path, contents } => {
                all.retain(|(n, _)| *n != path);
                all.push((path, contents));
            }
            FsAction::Remove { path } => all.retain(|(n, _)| *n != path),
        }
    }
    Ok(plan.changes)
}

fn run(patch: &str, all: &mut Files) -> Result<Vec<PreparedChange>, String> {
    run_in(&ctx(), patch, all)
}

#[test]
fn update_replace_and_add_and_delete() {
    let mut all = files(&[("a.txt", "alpha\nbeta\ngamma\n")]);
    let patch = "*** Begin Patch
*** Update File: a.txt
@@
 alpha
-beta
+BETA
 gamma
*** Add File: b.txt
+hello
+world
*** End Patch";
    let report = run(patch, &mut all).unwrap();
    assert!(report
        .iter()
        .any(|c| matches!(c, PreparedChange::Update { .. })));
    assert_eq!(read(&all, "a.txt").unwrap(), "alpha\nBETA\ngamma\n");
    assert_eq!(read(&all, "b.txt").unwrap(), "hello\nworld\n");
}

#[test]
fn end_of_file_addition() {
    let mut all = files(&[("f.txt", "one\ntwo\n")]);
    let patch = "*** Begin Patch
*** Update File: f.txt
@@
 two
+three
*** End of File
*** End Patch";
    run(patch, &mut all).unwrap();
    assert_eq!(read(&all, "f.txt").unwrap(), "one\ntwo\nthree\n");
}

#[test]
fn missing_end_patch_is_rejected() {
    let mut all = files(&[]);
    let patch = "*** Begin Patch\n*** Add File: a.txt\n+hi\n";
    let err = run(patch, &mut all).unwrap_err();
    assert!(
        err.contains("must be '*** End Patch'"),
        "expected end-patch error, got: {err}"
    );
    assert!(read(&all, "a.txt").is_none(), "no partial write on error");
}

#[test]
fn dirty_add_body_line_is_rejected() {
    let mut all = files(&[]);
    let patch = "*** Begin Patch\n*** Add File: a.txt\n+ok\nbare line\n*** End Patch";
    let err = run(patch, &mut all).unwrap_err();
    assert!(
        err.contains("is not a valid hunk header"),
        "expected invalid-hunk-header error, got: {err}"
    );
}

#[test]
fn delete_missing_file_is_rejected() {
    let mut all = files(&[]);
    let patch = "*** Begin Patch\n*** Delete File: nope.txt\n*** End Patch";
    let err = run(patch, &mut all).unwrap_err();
    assert!(
        err.contains("not found"),
        "expected not-found error, got: {err}"
    );
}

#[test]
fn later_hunk_failure_does_not_partially_apply_earlier_hunks() {
    let mut all = files(&[("a.txt", "old\n"), ("b.txt", "keep\n")]);
    let patch = "*** Begin Patch
*** Update File: a.txt
@@
-old
+new
*** Update File: b.txt
@@
-missing
+changed
*** End Patch";
    let err = run(patch, &mut all).unwrap_err();
    assert!(err.contains("Failed to find expected lines"));
    assert_eq!(read(&all, "a.txt").unwrap(), "old\n");
    assert_eq!(read(&all, "b.txt").unwrap(), "keep\n");
}

#[test]
fn whitespace_tolerant_match() {
    let mut all = files(&[("g.txt", "foo   \nbar\n")]);
    let patch = "*** Begin Patch
*** Update File: g.txt
@@
 foo
-bar
+BAR
*** End Patch";
    run(patch, &mut all).unwrap();
    assert_eq!(read(&all, "g.txt").unwrap(), "foo\nBAR\n");
}

#[test]
fn move_file() {
    let mut all = files(&[("old.txt", "x\ny\n")]);
    let patch = "*** Begin Patch
*** Update File: old.txt
*** Move to: new.txt
@@
-x
+X
*** End Patch";
    run(patch, &mut all).unwrap();
    assert!(read(&all, "old.txt").is_none());
    assert_eq!(read(&all, "new.txt").unwrap(), "X\ny\n");
}

#[test]
fn leading_newline_before_begin_patch_is_accepted() {
    let mut all = files(&[("a.txt", "alpha\n")]);
    let patch = "\n*** Begin Patch\n*** Update File: a.txt\n@@\n-alpha\n+ALPHA\n*** End Patch\n\n";
    run(patch, &mut all).unwrap();
    assert_eq!(read(&all, "a.txt").unwrap(), "ALPHA\n");
}

#[test]
fn trim_strips_surrounding_blank_lines_at_parse_layer() {
    let patch = "\n*** Begin Patch\n*** End Patch\n\n";
    let hunks = parse(patch).unwrap();
    assert!(hunks.is_empty(), "expected no hunks, got {hunks:?}");
}

#[test]
fn two_update_hunks_on_same_file_chain() {
    let mut all = files(&[("c.txt", "alpha\nbeta\ngamma\ndelta\n")]);
    let patch = "*** Begin Patch
*** Update File: c.txt
@@
-alpha
+ALPHA
*** Update File: c.txt
@@
-delta
+DELTA
*** End Patch";
    run(patch, &mut all).unwrap();
    assert_eq!(
        read(&all, "c.txt").unwrap(),
        "ALPHA\nbeta\ngamma\nDELTA\n"
    );
}

#[test]
fn add_then_update_on_same_file_chains() {
    let mut all = files(&[]);
    let patch = "*** Begin Patch
*** Add File: d.txt
+one
+two
*** Update File: d.txt
@@
-one
+ONE
*** End Patch";
    run(patch, &mut all).unwrap();
    assert_eq!(read(&all, "d.txt").unwrap(), "ONE\ntwo\n");
}

#[test]
fn chained_update_hunks_still_rollback_on_later_failure() {
    let mut all = files(&[("c.txt", "alpha\nbeta\n")]);
    let patch = "*** Begin Patch
*** Update File: c.txt
@@
-alpha
+ALPHA
*** Update File: c.txt
@@
-missing
+changed
*** End Patch";
    let err = run(patch, &mut all).unwrap_err();
    assert!(
        err.contains("Failed to find expected lines"),
        "expected seek failure, got: {err}"
    );
    assert_eq!(
        read(&all, "c.txt").unwrap(),
        "alpha\nbeta\n",
        "no partial write on validation failure"
    );
}

#[test]
fn trailing_whitespace_on_end_marker_is_accepted() {
    let patch = "*** Begin Patch\n*** Add File: a.txt\n+ok\n*** End Patch   ";
    let hunks = parse(patch).unwrap();
    assert_eq!(hunks.len(), 1);
}

#[test]
fn data_agent_cannot_write_theory_dir() {
    let ctx = FsCtx::new(
        WORKSPACE.to_string(),
        Some(format!("{WORKSPACE}/Data/Processed")),
        Platform::Unix,
    );
    let tool = ApplyPatchTool::new(ctx.copy());
    let call = |patch: &str| {
        let hunks = parse(patch).unwrap();
        let disk = facts(&paths_to_inspect(&hunks, &ctx), &files(&[]));
        tool.call(patch, &disk)
    };
    let ok = call("*** Begin Patch\n*** Add File: Data/Processed/a.csv\n+x\n*** End Patch\n");
    assert!(ok.is_ok(), "patch should be allowed: {ok:?}");
    let blocked = call("*** Begin Patch\n*** Add File: Theory/x.md\n+nope\n*** End Patch\n");
    assert!(
        blocked.is_err(),
        "patch outside write_dir must be rejected"
    );
    let meta =
        call("*** Begin Patch\n*** Add File: .autoreport/secrets.txt\n+nope\n*** End Patch\n");
    assert!(meta.is_err(), ".autoreport must be non-writable");
}

#[test]
fn apply_patch_rejects_symlink_write_escape() {
    let write_dir = format!("{WORKSPACE}/Data/Processed");
    let ctx = FsCtx::new(WORKSPACE.to_string(), Some(write_dir.clone()), Platform::Unix);
    let followed = FsCtx::new(WORKSPACE.to_string(), Some(write_dir.clone()), Platform::Unix);
    let path = format!("{write_dir}/outside/escape.txt");
    // The directory of the file is a link that leads out of the workspace.
    assert!(secure_write(&ctx, &followed, &path, "/elsewhere").is_err());
    // Without such a link the same write is allowed.
    let inside = format!("{write_dir}/outside");
    assert!(secure_write(&ctx, &followed, &path, &inside).is_ok());
}

// ---------------------------------------------------------------------------
// Parsing
// ---------------------------------------------------------------------------

#[test]
fn hunks_keep_their_contents() {
    let hunks = parse(
        "*** Begin Patch\n*** Add File: a\n+one\n+\n*** Delete File: b\n*** End Patch",
    )
    .unwrap();
    assert_eq!(hunks.len(), 2);
    assert!(matches!(
        &hunks[0],
        Hunk::AddFile { path, contents } if path == "a" && contents == "one\n\n"
    ));
    assert!(matches!(&hunks[1], Hunk::DeleteFile { path } if path == "b"));
}

#[test]
fn update_hunk_reads_context_and_end_of_file() {
    let hunks = parse(
        "*** Begin Patch\n*** Update File: a\n@@ fn f\n-x\n+y\n*** End of File\n*** End Patch",
    )
    .unwrap();
    match &hunks[0] {
        Hunk::UpdateFile {
            path,
            move_path,
            chunks,
        } => {
            assert_eq!(path, "a");
            assert!(move_path.is_none());
            assert_eq!(chunks.len(), 1);
            assert_eq!(chunks[0].change_context.as_deref(), Some("fn f"));
            assert_eq!(chunks[0].old_lines, vec!["x".to_string()]);
            assert_eq!(chunks[0].new_lines, vec!["y".to_string()]);
            assert!(chunks[0].is_end_of_file);
        }
        other => panic!("unexpected hunk {other:?}"),
    }
}

#[test]
fn patch_without_begin_is_rejected() {
    let err = parse("*** Add File: a\n+x\n*** End Patch").unwrap_err();
    assert!(err.contains("*** Begin Patch"), "got: {err}");
}

#[test]
fn heredoc_markers_are_taken_off() {
    let lines = vec![
        "*** Begin Patch".to_string(),
        "body".to_string(),
        "*** End Patch".to_string(),
    ];
    assert_eq!(check_patch_boundaries(&lines).unwrap(), lines);
    let mut wrapped = vec!["<<'EOF'".to_string()];
    wrapped.extend(lines.clone());
    wrapped.push("EOF".to_string());
    assert_eq!(check_patch_boundaries(&wrapped).unwrap(), lines);
}

#[test]
fn update_without_lines_is_rejected() {
    let lines: Vec<String> = Vec::new();
    let parsed = parse_update_chunks(&lines, 0);
    match parsed {
        Ok((chunks, at)) => {
            assert!(chunks.is_empty());
            assert_eq!(at, 0);
        }
        Err(e) => panic!("unexpected error {e}"),
    }
    assert!(parse("*** Begin Patch\n*** Update File: a\n*** End Patch").is_err());
}

// ---------------------------------------------------------------------------
// Looking for lines
// ---------------------------------------------------------------------------

fn lines(list: &[&str]) -> Vec<String> {
    list.iter().map(|s| s.to_string()).collect()
}

#[test]
fn seek_prefers_exact_matches() {
    let text = lines(&["foo ", "foo"]);
    assert_eq!(seek_sequence(&text, &lines(&["foo"]), 0, false), Some(1));
    assert_eq!(
        first_match(&text, &lines(&["foo"]), 0, Tolerance::TrailingSpace),
        Some(0)
    );
}

#[test]
fn seek_falls_back_step_by_step() {
    assert_eq!(
        seek_sequence(&lines(&["  a  "]), &lines(&["a"]), 0, false),
        Some(0)
    );
    assert_eq!(
        seek_sequence(&lines(&["a \u{2013} b"]), &lines(&["a - b"]), 0, false),
        Some(0)
    );
    assert_eq!(
        seek_sequence(&lines(&["a"]), &lines(&["b"]), 0, false),
        None
    );
    assert_eq!(seek_sequence(&lines(&["a"]), &[], 5, false), Some(5));
    assert_eq!(
        seek_sequence(&lines(&["a"]), &lines(&["a", "b"]), 0, false),
        None
    );
}

#[test]
fn seek_at_the_end_finds_the_last_place() {
    let text = lines(&["x", "y", "x"]);
    assert_eq!(seek_sequence(&text, &lines(&["x"]), 0, true), Some(2));
    assert_eq!(seek_sequence(&text, &lines(&["x"]), 0, false), Some(0));
}

#[test]
fn normalise_makes_punctuation_plain() {
    assert_eq!(normalise(" \u{201C}a\u{201D}\u{00A0}\u{2014} b "), "\"a\" - b");
}

#[test]
fn replacements_are_applied_where_they_say() {
    let text = lines(&["a", "b", "c"]);
    let edits = vec![
        Replacement {
            start: 0,
            old_len: 1,
            new_lines: lines(&["A", "AA"]),
        },
        Replacement {
            start: 2,
            old_len: 1,
            new_lines: lines(&[]),
        },
    ];
    assert_eq!(
        apply_replacements(&text, &edits),
        lines(&["A", "AA", "b"])
    );
}

#[test]
fn updated_contents_end_in_a_newline() {
    let hunks = parse("*** Begin Patch\n*** Update File: a\n@@\n-x\n+y\n*** End Patch").unwrap();
    match &hunks[0] {
        Hunk::UpdateFile { chunks, .. } => {
            assert_eq!(update_contents("x", "a", chunks).unwrap(), "y\n");
            let err = update_contents("z\n", "a", chunks).unwrap_err();
            assert!(err.contains("Failed to find expected lines in a"), "got: {err}");
        }
        other => panic!("unexpected hunk {other:?}"),
    }
}

// ---------------------------------------------------------------------------
// Plans
// ---------------------------------------------------------------------------

#[test]
fn adding_over_a_directory_is_rejected() {
    let patch = "*** Begin Patch\n*** Delete File: d\n*** End Patch";
    let disk = vec![FileFact {
        path: format!("{WORKSPACE}/d"),
        kind: FileKind::Dir,
        contents: Err("is a directory".to_string()),
    }];
    assert!(apply(patch, &ctx(), &disk).is_err());
}

#[test]
fn pending_changes_are_found_by_path() {
    let changes = vec![
        PreparedChange::Add {
            path: "/ws/a".to_string(),
            contents: "x".to_string(),
        },
        PreparedChange::Delete {
            path: "/ws/b".to_string(),
        },
    ];
    assert_eq!(find_pending_for_path(&changes, "/ws/a"), Some(0));
    assert_eq!(find_pending_for_path(&changes, "/ws/c"), None);
    assert_eq!(changes[0].pending_contents(), Some("x".to_string()));
    assert_eq!(changes[1].pending_contents(), None);
    assert_eq!(changes[1].paths(), vec!["/ws/b".to_string()]);
}

#[test]
fn backups_tell_what_was_there() {
    let changes = vec![PreparedChange::Update {
        path: "/ws/a".to_string(),
        contents: "new".to_string(),
    }];
    let disk = vec![FileFact {
        path: "/ws/a".to_string(),
        kind: FileKind::File,
        contents: Ok("old".to_string()),
    }];
    let backups = plan_backups(&changes, &disk).unwrap();
    assert_eq!(backups.len(), 1);
    assert_eq!(backups[0].path, "/ws/a");
    assert!(backups[0].existed);
}

#[test]
fn restoring_follows_what_was_there() {
    let existed = Backup {
        path: "/ws/a".to_string(),
        existed: true,
    };
    let absent = Backup {
        path: "/ws/a".to_string(),
        existed: false,
    };
    assert!(matches!(
        restore_backup(&existed, &FileKind::File),
        Ok(RestoreStep::WriteBack)
    ));
    assert!(matches!(
        restore_backup(&absent, &FileKind::File),
        Ok(RestoreStep::Remove)
    ));
    assert!(matches!(
        restore_backup(&absent, &FileKind::Missing),
        Ok(RestoreStep::Leave)
    ));
    assert!(restore_backup(&absent, &FileKind::Unreadable("denied".to_string())).is_err());
}

#[test]
fn failure_message_names_both_faults() {
    assert_eq!(failure_message("disk full", &None), "disk full");
    let both = failure_message("disk full", &Some("read only".to_string()));
    assert!(both.contains("disk full"));
    assert!(both.contains("read only"));
}

#[test]
fn parents_of_paths() {
    assert_eq!(parent_path(Platform::Unix, "/a/b"), Some("/a".to_string()));
    assert_eq!(parent_path(Platform::Unix, "/"), None);
}

#[test]
fn tool_reports_its_name_and_changes() {
    let tool = make(ctx());
    assert_eq!(tool.name(), "apply_patch");
    let patch = "*** Begin Patch\n*** Add File: n.txt\n+x\n*** End Patch";
    let hunks = parse(patch).unwrap();
    let disk = facts(&paths_to_inspect(&hunks, &ctx()), &files(&[]));
    let plan = tool.call(patch, &disk).unwrap();
    let report = autoreport::apply_patch::report(&plan.changes);
    assert_eq!(report.len(), 1);
    assert_eq!(report[0].action, "add");
    assert_eq!(report[0].path, "/ws/n.txt");
}
