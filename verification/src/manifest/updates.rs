//! What updates do to the descriptions of a manifest.

use crate::agent::AgentType;
use crate::manifest;
use crate::manifest::{
    EditState, FileView, ManifestAction, ManifestView, PairView, RecordView, UpdateView,
};
use crate::text;
use vstd::prelude::*;

verus! {

/// Whether the file at `i` is the one that a path stands for: the last with that path.
pub open spec fn is_listed_at(files: Seq<FileView>, path: Seq<char>, i: int) -> bool {
    &&& 0 <= i < files.len()
    &&& files[i].path == path
    &&& forall|j: int| i < j < files.len() ==> (#[trigger] files[j]).path != path
}

/// Whether no file has a path.
pub open spec fn is_unlisted(files: Seq<FileView>, path: Seq<char>) -> bool {
    forall|j: int| 0 <= j < files.len() ==> (#[trigger] files[j]).path != path
}

/// Whether a record is about a path: its own without white space around it.
pub open spec fn names(rec: RecordView, path: Seq<char>) -> bool {
    path.len() > 0 && rec.path is Some && text::trimmed(rec.path->0) == path
}

/// What an update that touches no notes leaves.
pub open spec fn described_by(m: ManifestView, recs: Seq<RecordView>, now: Seq<char>) -> UpdateView {
    manifest::updated_manifest(m, recs, None, now)->Ok_0
}

/// What is edited at the start of an update.
pub open spec fn at_start(m: ManifestView) -> EditState {
    EditState {
        files: m.files,
        not_found: Seq::empty(),
        changes: Seq::empty(),
        mismatches: Seq::empty(),
    }
}

/// The place of a path is the last file with it.
proof fn last_index_is(files: Seq<FileView>, path: Seq<char>)
    ensures
        match manifest::last_index(files, path) {
            Some(i) => is_listed_at(files, path, i),
            None => is_unlisted(files, path),
        },
    decreases files.len(),
{
    if files.len() > 0 {
        let front = files.drop_last();
        last_index_is(front, path);
        if files.last().path != path {
            match manifest::last_index(front, path) {
                Some(i) => {
                    assert forall|j: int| i < j < files.len() implies (#[trigger] files[j]).path
                        != path by {
                        if j < front.len() {
                            assert(front[j].path != path);
                        }
                    }
                },
                None => {
                    assert forall|j: int| 0 <= j < files.len() implies (#[trigger] files[j]).path
                        != path by {
                        if j < front.len() {
                            assert(front[j].path != path);
                        }
                    }
                },
            }
        }
    }
}

/// A path stands for one file at most.
proof fn listed_once(files: Seq<FileView>, path: Seq<char>, i: int)
    requires
        is_listed_at(files, path, i),
    ensures
        manifest::last_index(files, path) == Some(i),
{
    last_index_is(files, path);
    match manifest::last_index(files, path) {
        Some(k) => {
            if k < i {
                assert(files[i].path != path);
            }
            if i < k {
                assert(files[k].path != path);
            }
        },
        None => {
            assert(files[i].path != path);
        },
    }
}

/// The first records are those of a shorter list.
proof fn first_records(s: EditState, recs: Seq<RecordView>, j: int, k: int, now: Seq<char>)
    requires
        0 <= k <= j <= recs.len(),
    ensures
        manifest::with_records(s, recs.take(j), k, now) == manifest::with_records(s, recs, k, now),
    decreases k,
{
    if k > 0 {
        first_records(s, recs, j, k - 1, now);
        assert(recs.take(j)[k - 1] == recs[k - 1]);
    }
}

/// Edits keep the paths of files and when those were changed.
proof fn edits_keep_files(s: EditState, recs: Seq<RecordView>, k: int, now: Seq<char>)
    ensures
        ({
            let t = manifest::with_records(s, recs, k, now);
            &&& t.files.len() == s.files.len()
            &&& forall|i: int|
                0 <= i < s.files.len() ==> (#[trigger] t.files[i]).path == s.files[i].path
                    && t.files[i].file_updated_at == s.files[i].file_updated_at
        }),
    decreases k,
{
    if k > 0 {
        edits_keep_files(s, recs, k - 1, now);
        let t = manifest::with_records(s, recs, k - 1, now);
        if let Some(raw) = recs[k - 1].path {
            last_index_is(t.files, text::trimmed(raw));
        }
        let u = manifest::with_records(s, recs, k, now);
        assert forall|i: int| 0 <= i < s.files.len() implies (#[trigger] u.files[i]).path
            == s.files[i].path && u.files[i].file_updated_at == s.files[i].file_updated_at by {
            assert(t.files[i].path == s.files[i].path);
        }
    }
}

/// The place that a path stands for stays while descriptions are edited.
proof fn places_stay(s: EditState, recs: Seq<RecordView>, k: int, now: Seq<char>, path: Seq<char>)
    ensures
        manifest::last_index(manifest::with_records(s, recs, k, now).files, path)
            == manifest::last_index(s.files, path),
{
    edits_keep_files(s, recs, k, now);
    let t = manifest::with_records(s, recs, k, now);
    last_index_is(t.files, path);
    last_index_is(s.files, path);
    match manifest::last_index(s.files, path) {
        Some(i) => {
            assert(is_listed_at(t.files, path, i)) by {
                assert(t.files[i].path == path);
                assert forall|j: int| i < j < t.files.len() implies (#[trigger] t.files[j]).path
                    != path by {
                    assert(s.files[j].path != path);
                }
            }
            listed_once(t.files, path, i);
        },
        None => {
            if let Some(i) = manifest::last_index(t.files, path) {
                assert(s.files[i].path != path);
                assert(t.files[i].path == path);
            }
        },
    }
}

/// A file stays as it is while no record changes its description.
proof fn unnamed_files_stay(
    s: EditState,
    recs: Seq<RecordView>,
    from: int,
    k: int,
    now: Seq<char>,
    i: int,
)
    requires
        0 <= from <= k <= recs.len(),
        0 <= i < s.files.len(),
        forall|r: int|
            from <= r < k ==> !names(#[trigger] recs[r], s.files[i].path)
                || recs[r].description_new is None,
    ensures
        manifest::with_records(s, recs, k, now).files[i] == manifest::with_records(
            s,
            recs,
            from,
            now,
        ).files[i],
    decreases k - from,
{
    if from < k {
        unnamed_files_stay(s, recs, from, k - 1, now, i);
        let t = manifest::with_records(s, recs, k - 1, now);
        edits_keep_files(s, recs, k - 1, now);
        assert(t.files[i].path == s.files[i].path);
        let rec = recs[k - 1];
        assert(!names(rec, s.files[i].path) || rec.description_new is None);
        if let Some(raw) = rec.path {
            last_index_is(t.files, text::trimmed(raw));
        }
    }
}

/// A description that a record gives is written: where the path of the record, without white
/// space around it, is that of a listed file, and the record expects no description or the
/// one that the records before it left, the file has the new description in the end, unless
/// a later record gives it another one. When it changed, the time is noted.
pub proof fn law_descriptions_are_written(
    m: ManifestView,
    recs: Seq<RecordView>,
    patch: Option<Seq<char>>,
    now: Seq<char>,
    j: int,
    i: int,
    path: Seq<char>,
    fresh: Seq<char>,
)
    requires
        manifest::updated_manifest(m, recs, patch, now) is Ok,
        0 <= j < recs.len(),
        names(recs[j], path),
        recs[j].description_new == Some(fresh),
        is_listed_at(m.files, path, i),
        recs[j].description_old matches Some(d) ==> d == described_by(
            m,
            recs.take(j),
            now,
        ).manifest.files[i].description,
        forall|k: int|
            j < k < recs.len() ==> !names(#[trigger] recs[k], path)
                || recs[k].description_new is None,
    ensures
        ({
            let after = manifest::updated_manifest(m, recs, patch, now)->Ok_0.manifest.files[i];
            let before = described_by(m, recs.take(j), now).manifest.files[i];
            &&& after.path == path
            &&& after.description == fresh
            &&& fresh != before.description ==> after.description_updated_at == Some(now)
            &&& fresh == before.description ==> after == before
        }),
{
    let s = at_start(m);
    let n = recs.len() as int;
    first_records(s, recs, j, j, now);
    let t = manifest::with_records(s, recs, j, now);
    places_stay(s, recs, j, now, path);
    listed_once(m.files, path, i);
    edits_keep_files(s, recs, j, now);
    edits_keep_files(s, recs, n, now);
    unnamed_files_stay(s, recs, j + 1, n, now, i);
    assert(manifest::with_records(s, recs, j + 1, now) == manifest::with_record(t, recs[j], now));
    assert(t.files[i].path == path);
}

/// A record that expects another description than the file has changes nothing, and is
/// reported with both.
pub proof fn law_unexpected_descriptions_are_kept(
    m: ManifestView,
    recs: Seq<RecordView>,
    now: Seq<char>,
    rec: RecordView,
    i: int,
    path: Seq<char>,
    expected: Seq<char>,
)
    requires
        names(rec, path),
        rec.description_new is Some,
        rec.description_old == Some(expected),
        is_listed_at(m.files, path, i),
        expected != described_by(m, recs, now).manifest.files[i].description,
    ensures
        ({
            let before = described_by(m, recs, now);
            let after = described_by(m, recs.push(rec), now);
            &&& after.manifest == before.manifest
            &&& after.changes == before.changes
            &&& after.not_found == before.not_found
            &&& after.mismatches == before.mismatches.push(
                PairView {
                    path,
                    first: expected,
                    second: before.manifest.files[i].description,
                },
            )
        }),
{
    one_more_record(m, recs, now, rec);
    places_stay(at_start(m), recs, recs.len() as int, now, path);
    listed_once(m.files, path, i);
}

/// One more record is taken in behind the others.
proof fn one_more_record(m: ManifestView, recs: Seq<RecordView>, now: Seq<char>, rec: RecordView)
    ensures
        ({
            let s = at_start(m);
            let n = recs.len() as int;
            manifest::with_records(s, recs.push(rec), n + 1, now) == manifest::with_record(
                manifest::with_records(s, recs, n, now),
                rec,
                now,
            )
        }),
{
    let all = recs.push(rec);
    let n = recs.len() as int;
    first_records(at_start(m), all, n, n, now);
    assert(all.take(n) =~= recs);
}

/// Every path that a record names and that no file has is reported, in the order of the
/// records, and no other is.
pub proof fn law_unlisted_paths_are_reported(
    m: ManifestView,
    recs: Seq<RecordView>,
    now: Seq<char>,
    rec: RecordView,
    path: Seq<char>,
)
    requires
        names(rec, path),
    ensures
        ({
            let before = described_by(m, recs, now);
            let after = described_by(m, recs.push(rec), now);
            &&& is_unlisted(m.files, path) ==> after.not_found == before.not_found.push(path)
                && after.manifest == before.manifest && after.changes == before.changes
                && after.mismatches == before.mismatches
            &&& !is_unlisted(m.files, path) ==> after.not_found == before.not_found
        }),
{
    one_more_record(m, recs, now, rec);
    places_stay(at_start(m), recs, recs.len() as int, now, path);
    last_index_is(m.files, path);
    match manifest::last_index(m.files, path) {
        Some(i) => assert(m.files[i].path == path),
        None => {},
    }
}

/// A record without a path, or without a new description for a file that is listed, does
/// nothing.
pub proof fn law_empty_records_do_nothing(
    m: ManifestView,
    recs: Seq<RecordView>,
    now: Seq<char>,
    rec: RecordView,
)
    requires
        rec.path is None || text::trimmed(rec.path->0).len() == 0 || (rec.description_new is None
            && !is_unlisted(m.files, text::trimmed(rec.path->0))),
    ensures
        described_by(m, recs.push(rec), now) == described_by(m, recs, now),
{
    one_more_record(m, recs, now, rec);
    if let Some(raw) = rec.path {
        let path = text::trimmed(raw);
        places_stay(at_start(m), recs, recs.len() as int, now, path);
        last_index_is(m.files, path);
    }
}

/// A file keeps all that a manifest says of it while no record with a new description names
/// it. Its path and the time of its last change stay in any case, and so does the number of
/// files.
pub proof fn law_other_files_are_kept(
    m: ManifestView,
    recs: Seq<RecordView>,
    patch: Option<Seq<char>>,
    now: Seq<char>,
    i: int,
)
    requires
        manifest::updated_manifest(m, recs, patch, now) is Ok,
        0 <= i < m.files.len(),
    ensures
        ({
            let files = manifest::updated_manifest(m, recs, patch, now)->Ok_0.manifest.files;
            &&& files.len() == m.files.len()
            &&& files[i].path == m.files[i].path
            &&& files[i].file_updated_at == m.files[i].file_updated_at
            &&& (forall|r: int|
                0 <= r < recs.len() ==> !names(#[trigger] recs[r], m.files[i].path)
                    || recs[r].description_new is None) ==> files[i] == m.files[i]
        }),
{
    let s = at_start(m);
    edits_keep_files(s, recs, recs.len() as int, now);
    assert(manifest::with_records(s, recs, recs.len() as int, now).files[i].path
        == m.files[i].path);
    if forall|r: int|
        0 <= r < recs.len() ==> !names(#[trigger] recs[r], m.files[i].path)
            || recs[r].description_new is None {
        unnamed_files_stay(s, recs, 0, recs.len() as int, now, i);
    }
}

/// Whether no later change is about the same path.
pub open spec fn is_last_change(changes: Seq<PairView>, c: int) -> bool {
    &&& 0 <= c < changes.len()
    &&& forall|d: int| c < d < changes.len() ==> (#[trigger] changes[d]).path != changes[c].path
}

/// Whether the file that a path stands for has a description.
pub open spec fn has_description(
    files: Seq<FileView>,
    path: Seq<char>,
    description: Seq<char>,
) -> bool {
    exists|i: int| #[trigger]
        is_listed_at(files, path, i) && files[i].description == description
}

/// Whether reported changes agree with the files: the last one of a path says what its file
/// has now.
pub open spec fn changes_hold(files: Seq<FileView>, changes: Seq<PairView>) -> bool {
    forall|c: int| #[trigger]
        is_last_change(changes, c) ==> has_description(files, changes[c].path, changes[c].second)
}

/// Reported changes agree with the files after each record.
proof fn changes_keep_holding(s: EditState, recs: Seq<RecordView>, k: int, now: Seq<char>)
    requires
        0 <= k <= recs.len(),
        s.changes.len() == 0,
    ensures
        changes_hold(
            manifest::with_records(s, recs, k, now).files,
            manifest::with_records(s, recs, k, now).changes,
        ),
        forall|c: int|
            0 <= c < manifest::with_records(s, recs, k, now).changes.len() ==> (
            #[trigger] manifest::with_records(s, recs, k, now).changes[c]).first
                != manifest::with_records(s, recs, k, now).changes[c].second,
    decreases k,
{
    if k > 0 {
        changes_keep_holding(s, recs, k - 1, now);
        let t = manifest::with_records(s, recs, k - 1, now);
        let u = manifest::with_records(s, recs, k, now);
        let rec = recs[k - 1];
        if let Some(raw) = rec.path {
            let path = text::trimmed(raw);
            last_index_is(t.files, path);
            if u.changes.len() > t.changes.len() {
                let at = manifest::last_index(t.files, path)->0;
                let n = t.changes.len() as int;
                assert forall|c: int| #[trigger]
                    is_last_change(u.changes, c) implies has_description(
                    u.files,
                    u.changes[c].path,
                    u.changes[c].second,
                ) by {
                    if c < n {
                        assert(u.changes[n].path != u.changes[c].path);
                        assert(u.changes[c] == t.changes[c]);
                        assert(is_last_change(t.changes, c)) by {
                            assert forall|d: int| c < d < t.changes.len() implies (
                            #[trigger] t.changes[d]).path != t.changes[c].path by {
                                assert(u.changes[d] == t.changes[d]);
                            }
                        }
                        let i = choose|i: int| #[trigger]
                            is_listed_at(t.files, t.changes[c].path, i) && t.files[i].description
                                == t.changes[c].second;
                        assert(i != at);
                        assert(is_listed_at(u.files, u.changes[c].path, i));
                    } else {
                        assert(is_listed_at(u.files, path, at));
                    }
                }
                assert forall|c: int| 0 <= c < u.changes.len() implies (#[trigger] u.changes[c]).first
                    != u.changes[c].second by {
                    if c < n {
                        assert(u.changes[c] == t.changes[c]);
                    }
                }
            } else {
                assert(u.changes == t.changes && u.files == t.files);
            }
        }
    } else {
        assert forall|c: int| !is_last_change(s.changes, c) by {}
    }
}

/// What is reported as changed is changed: of each path, the last reported change gives the
/// description that the file has now, and no change is from a description to itself.
pub proof fn law_reported_changes_are_made(
    m: ManifestView,
    recs: Seq<RecordView>,
    patch: Option<Seq<char>>,
    now: Seq<char>,
)
    requires
        manifest::updated_manifest(m, recs, patch, now) is Ok,
    ensures
        ({
            let u = manifest::updated_manifest(m, recs, patch, now)->Ok_0;
            &&& changes_hold(u.manifest.files, u.changes)
            &&& forall|c: int|
                0 <= c < u.changes.len() ==> (#[trigger] u.changes[c]).first
                    != u.changes[c].second
        }),
{
    changes_keep_holding(at_start(m), recs, recs.len() as int, now);
}

/// A record that gives a file another description reports it once, from the old one to the
/// new one.
pub proof fn law_changes_are_reported(
    m: ManifestView,
    recs: Seq<RecordView>,
    now: Seq<char>,
    rec: RecordView,
    i: int,
    path: Seq<char>,
    fresh: Seq<char>,
)
    requires
        names(rec, path),
        rec.description_new == Some(fresh),
        is_listed_at(m.files, path, i),
        rec.description_old matches Some(d) ==> d == described_by(
            m,
            recs,
            now,
        ).manifest.files[i].description,
    ensures
        ({
            let before = described_by(m, recs, now);
            let after = described_by(m, recs.push(rec), now);
            let was = before.manifest.files[i].description;
            &&& after.manifest.files[i].description == fresh
            &&& after.changes == (if fresh == was {
                before.changes
            } else {
                before.changes.push(PairView { path, first: was, second: fresh })
            })
            &&& after.mismatches == before.mismatches
            &&& after.not_found == before.not_found
        }),
{
    one_more_record(m, recs, now, rec);
    places_stay(at_start(m), recs, recs.len() as int, now, path);
    edits_keep_files(at_start(m), recs, recs.len() as int, now);
    listed_once(m.files, path, i);
}

/// An update without a patch to the notes, or with a blank one, leaves the notes alone. The
/// time of the notes changes where they do and nowhere else. Whose manifest it is stays.
pub proof fn law_notes_change_by_patches_only(
    m: ManifestView,
    recs: Seq<RecordView>,
    patch: Option<Seq<char>>,
    now: Seq<char>,
)
    ensures
        patch is None || (forall|i: int|
            0 <= i < patch->0.len() ==> text::is_white(#[trigger] patch->0[i]))
            ==> manifest::updated_manifest(m, recs, patch, now) == Ok::<UpdateView, Seq<char>>(
            described_by(m, recs, now),
        ) && described_by(m, recs, now).manifest.notes == m.notes,
        manifest::updated_manifest(m, recs, patch, now) matches Ok(u) ==> {
            &&& u.manifest.notes == m.notes ==> u.manifest.notes_updated_at == m.notes_updated_at
            &&& u.manifest.notes != m.notes ==> u.manifest.notes_updated_at == Some(now)
            &&& u.manifest.agent_type == m.agent_type
            &&& u.manifest.updated_at == m.updated_at
            &&& u.manifest.files == described_by(m, recs, now).manifest.files
            &&& u.changes == described_by(m, recs, now).changes
            &&& u.mismatches == described_by(m, recs, now).mismatches
            &&& u.not_found == described_by(m, recs, now).not_found
        },
{
    if let Some(p) = patch {
        if forall|i: int| 0 <= i < p.len() ==> text::is_white(#[trigger] p[i]) {
            text::law_trimming_takes_white_space_only(p);
            let t = text::trimmed(p);
            let a = choose|a: int| #[trigger] text::is_core(p, t, a);
            if t.len() > 0 {
                assert(t[0] == p[a]);
                assert(text::is_white(p[a]));
            }
        }
    }
}

/// Descriptions survive when a manifest is brought up to date: a file that is on disk keeps
/// what was said of it and gets the time of the disk, and one that is new comes as it is.
pub proof fn law_descriptions_survive_sync(
    m: ManifestView,
    actual: Seq<FileView>,
    i: int,
    k: int,
)
    requires
        0 <= i < actual.len(),
    ensures
        ({
            let f = manifest::synced(m, actual).files[i];
            &&& manifest::synced(m, actual).files.len() == actual.len()
            &&& f.path == actual[i].path
            &&& f.file_updated_at == actual[i].file_updated_at
            &&& is_listed_at(m.files, actual[i].path, k) ==> f.description
                == m.files[k].description && f.description_updated_at
                == m.files[k].description_updated_at
            &&& is_unlisted(m.files, actual[i].path) ==> f == actual[i]
        }),
{
    last_record_is(m.files, actual[i].path);
    last_index_is(m.files, actual[i].path);
    if is_listed_at(m.files, actual[i].path, k) {
        listed_once(m.files, actual[i].path, k);
    }
    if is_unlisted(m.files, actual[i].path) {
        if let Some(j) = manifest::last_index(m.files, actual[i].path) {
            assert(m.files[j].path != actual[i].path);
        }
    }
}

/// The last record with a path stands at its place.
proof fn last_record_is(files: Seq<FileView>, path: Seq<char>)
    ensures
        match manifest::last_index(files, path) {
            Some(i) => 0 <= i < files.len() && manifest::last_record(files, path) == Some(
                files[i],
            ),
            None => manifest::last_record(files, path) is None,
        },
    decreases files.len(),
{
    if files.len() > 0 && files.last().path != path {
        last_record_is(files.drop_last(), path);
    }
}

/// Recording a file notes when it was changed: the first file with its path gets the time and
/// nothing else, and a file that is not there is added without a description.
pub proof fn law_recording_notes_the_time(
    m: ManifestView,
    path: Seq<char>,
    at: Seq<char>,
    i: int,
)
    requires
        0 <= i < m.files.len(),
    ensures
        ({
            let files = manifest::recorded(m, path, at).files;
            &&& manifest::recorded(m, path, at).notes == m.notes
            &&& m.files[i].path == path && (forall|j: int|
                0 <= j < i ==> (#[trigger] m.files[j]).path != path) ==> files == m.files.update(
                i,
                FileView { file_updated_at: Some(at), ..m.files[i] },
            )
            &&& is_unlisted(m.files, path) ==> files == m.files.push(
                FileView {
                    path,
                    description: Seq::empty(),
                    description_updated_at: None,
                    file_updated_at: Some(at),
                },
            )
        }),
{
    first_index_is(m.files, path, 0);
    if is_unlisted(m.files, path) {
        if let Some(k) = manifest::first_index(m.files, path, 0) {
            assert(m.files[k].path != path);
        }
    }
}

/// The first file with a path.
proof fn first_index_is(files: Seq<FileView>, path: Seq<char>, from: int)
    requires
        0 <= from <= files.len(),
    ensures
        match manifest::first_index(files, path, from) {
            Some(i) => from <= i < files.len() && files[i].path == path && forall|j: int|
                from <= j < i ==> (#[trigger] files[j]).path != path,
            None => forall|j: int| from <= j < files.len() ==> (#[trigger] files[j]).path != path,
        },
    decreases files.len() - from,
{
    if from < files.len() && files[from].path != path {
        first_index_is(files, path, from + 1);
    }
}

/// Any agent may read any manifest, and each may change its own and no other. A call without
/// an action reads.
pub proof fn law_only_the_own_manifest_is_changed(
    own: AgentType,
    action: Option<Seq<char>>,
    target: AgentType,
)
    ensures
        manifest::wanted_action(own, action, target) == Ok::<ManifestAction, Seq<char>>(
            ManifestAction::Update,
        ) <==> action == Some(seq!['u', 'p', 'd', 'a', 't', 'e']) && target == own,
        manifest::wanted_action(own, action, target) == Ok::<ManifestAction, Seq<char>>(
            ManifestAction::Read(target),
        ) <==> action is None || action == Some(seq!['r', 'e', 'a', 'd']),
        manifest::wanted_action(own, action, target) matches Ok(ManifestAction::Read(t)) ==> t
            == target,
{
    reveal_strlit("read");
    reveal_strlit("update");
    assert("read"@ =~= seq!['r', 'e', 'a', 'd']);
    assert("update"@ =~= seq!['u', 'p', 'd', 'a', 't', 'e']);
    assert("read"@.len() != "update"@.len());
}

} // verus!
