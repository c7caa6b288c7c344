use crate::engine::fingerprint::{needs_rebuild, Fingerprint, FingerprintView, UpdateMode};
use crate::engine::store::{absent_count, SidecarEntry, Store};
use crate::text::text_eq;
use vstd::prelude::*;

verus! {

/// A source file as the walk found it: its path and its current state.
#[derive(Debug)]
pub struct SourceFile {
    pub path: String,
    pub fingerprint: Fingerprint,
}

/// A source file as plain values.
pub struct SourceFileView {
    pub path: Seq<char>,
    pub fingerprint: FingerprintView,
}

impl View for SourceFile {
    type V = SourceFileView;

    open spec fn view(&self) -> SourceFileView {
        SourceFileView { path: self.path@, fingerprint: self.fingerprint@ }
    }
}

/// The files of a walk as plain values.
pub open spec fn file_views(files: Seq<SourceFile>) -> Seq<SourceFileView> {
    Seq::new(files.len(), |i: int| files[i]@)
}

/// The fingerprints an index holds, by source path.
pub type FingerprintTable = Map<Seq<char>, FingerprintView>;

/// Whether `file` must be rebuilt in an index that holds `table`.
pub open spec fn stale_in(table: FingerprintTable, file: SourceFileView, mode: UpdateMode) -> bool {
    needs_rebuild(
        if table.contains_key(file.path) {
            Some(table[file.path])
        } else {
            None
        },
        file.fingerprint,
        mode,
    )
}

/// For each file, whether it must be rebuilt.
pub open spec fn stale_flags(
    table: FingerprintTable,
    files: Seq<SourceFileView>,
    mode: UpdateMode,
) -> Seq<bool> {
    Seq::new(files.len(), |i: int| stale_in(table, files[i], mode))
}

/// What the index holds after an update in which every rebuild succeeded:
/// each stale file is entered at its current fingerprint, everything else
/// stays.
pub open spec fn refreshed(
    table: FingerprintTable,
    files: Seq<SourceFileView>,
    mode: UpdateMode,
) -> FingerprintTable
    decreases files.len(),
{
    if files.len() == 0 {
        table
    } else {
        let rest = refreshed(table, files.drop_last(), mode);
        if stale_in(table, files.last(), mode) {
            rest.insert(files.last().path, files.last().fingerprint)
        } else {
            rest
        }
    }
}

/// No two files have the same path.
pub open spec fn distinct_paths(files: Seq<SourceFileView>) -> bool {
    forall|i: int, j: int| 0 <= i < j < files.len() ==> (#[trigger] files[i]).path != (#[trigger] files[j]).path
}

/// What an update has to do.
#[derive(Debug)]
pub struct UpdatePlan {
    /// For each file of the walk, whether it is rebuilt.
    pub stale: Vec<bool>,
    pub files_to_index: usize,
    pub files_skipped: usize,
}

/// Decides for each file of a walk whether its entry is rebuilt or reused.
pub fn plan_update(store: &Store, files: &Vec<SourceFile>, mode: UpdateMode) -> (plan: UpdatePlan)
    ensures
        plan.stale@ == stale_flags(store.fingerprints(), file_views(files@), mode),
        plan.files_skipped == absent_count(plan.stale@),
        plan.files_to_index + plan.files_skipped == files@.len(),
{
    let mut stale: Vec<bool> = Vec::new();
    let mut to_index: usize = 0;
    let mut skipped: usize = 0;
    let ghost table = store.fingerprints();
    let ghost views = file_views(files@);
    let mut i: usize = 0;
    while i < files.len()
        invariant
            i <= files.len(),
            table == store.fingerprints(),
            views == file_views(files@),
            stale@ == stale_flags(table, views, mode).take(i as int),
            skipped == absent_count(stale@),
            to_index + skipped == i,
        decreases files.len() - i,
    {
        let file = &files[i];
        let entry = store.read(file.path.as_str());
        let stored = match entry {
            Some(e) => Some(&e.fingerprint),
            None => None,
        };
        let is_stale = Fingerprint::is_stale(stored, &file.fingerprint, mode);
        proof {
            assert(views[i as int] == files@[i as int]@);
            assert(is_stale == stale_in(table, views[i as int], mode));
            let next = stale@.push(is_stale);
            assert(next.drop_last() =~= stale@);
            assert(next =~= stale_flags(table, views, mode).take(i + 1));
        }
        stale.push(is_stale);
        if is_stale {
            to_index = to_index + 1;
        } else {
            skipped = skipped + 1;
        }
        i = i + 1;
    }
    proof {
        assert(stale@ =~= stale_flags(table, views, mode));
    }
    UpdatePlan { stale, files_to_index: to_index, files_skipped: skipped }
}

/// What an update leaves in the index, path by path. The paths of the walk
/// must be distinct.
pub proof fn lemma_refreshed(
    table: FingerprintTable,
    files: Seq<SourceFileView>,
    mode: UpdateMode,
)
    requires
        distinct_paths(files),
    ensures
        forall|i: int|
            0 <= i < files.len() && stale_in(table, #[trigger] files[i], mode) ==> refreshed(
                table,
                files,
                mode,
            ).contains_key(files[i].path) && refreshed(table, files, mode)[files[i].path]
                == files[i].fingerprint,
        forall|i: int|
            0 <= i < files.len() && !stale_in(table, #[trigger] files[i], mode) ==> refreshed(
                table,
                files,
                mode,
            ).contains_key(files[i].path) && refreshed(table, files, mode)[files[i].path]
                == table[files[i].path],
    decreases files.len(),
{
    if files.len() > 0 {
        let front = files.drop_last();
        let last = files.last();
        assert(distinct_paths(front)) by {
            assert forall|i: int, j: int| 0 <= i < j < front.len() implies (#[trigger] front[i]).path != (
            #[trigger] front[j]).path by {
                assert(files[i].path != files[j].path);
            }
        }
        lemma_refreshed(table, front, mode);
        let rest = refreshed(table, front, mode);
        let out = refreshed(table, files, mode);
        assert forall|i: int| 0 <= i < front.len() implies (#[trigger] front[i]).path != last.path by {
            assert(files[i].path != files[files.len() - 1].path);
        }
        assert forall|i: int| 0 <= i < files.len() implies (stale_in(table, #[trigger] files[i], mode)
            ==> out.contains_key(files[i].path) && out[files[i].path] == files[i].fingerprint) && (
        !stale_in(table, files[i], mode) ==> out.contains_key(files[i].path) && out[files[i].path]
            == table[files[i].path]) by {
            if i < front.len() {
                assert(front[i] == files[i]);
                assert(front[i].path != last.path);
            } else {
                lemma_refreshed_elsewhere(table, front, mode, last.path);
            }
        }
    }
}

/// An update leaves alone every path that is not among its files.
proof fn lemma_refreshed_elsewhere(
    table: FingerprintTable,
    files: Seq<SourceFileView>,
    mode: UpdateMode,
    path: Seq<char>,
)
    requires
        forall|i: int| 0 <= i < files.len() ==> (#[trigger] files[i]).path != path,
    ensures
        refreshed(table, files, mode).contains_key(path) <==> table.contains_key(path),
        table.contains_key(path) ==> refreshed(table, files, mode)[path] == table[path],
    decreases files.len(),
{
    if files.len() > 0 {
        let front = files.drop_last();
        assert forall|i: int| 0 <= i < front.len() implies (#[trigger] front[i]).path != path by {
            assert(files[i].path != path);
        }
        lemma_refreshed_elsewhere(table, front, mode, path);
        assert(files[files.len() - 1].path != path);
    }
}

/// An update that is run again on the same files, without a forced rebuild,
/// skips every file and leaves the index as it is.
pub proof fn lemma_update_is_idempotent(
    table: FingerprintTable,
    files: Seq<SourceFileView>,
    mode: UpdateMode,
)
    requires
        distinct_paths(files),
    ensures
        ({
            let again = UpdateMode { force_rebuild: false, always_hash: mode.always_hash };
            let once = refreshed(table, files, mode);
            &&& forall|i: int| 0 <= i < files.len() ==> !stale_in(once, #[trigger] files[i], again)
            &&& absent_count(stale_flags(once, files, again)) == files.len()
            &&& refreshed(once, files, again) == once
        }),
{
    let again = UpdateMode { force_rebuild: false, always_hash: mode.always_hash };
    let once = refreshed(table, files, mode);
    lemma_refreshed(table, files, mode);
    assert forall|i: int| 0 <= i < files.len() implies !stale_in(once, #[trigger] files[i], again) by {
        if stale_in(table, files[i], mode) {
            assert(once[files[i].path] == files[i].fingerprint);
        } else {
            assert(once[files[i].path] == table[files[i].path]);
        }
    }
    lemma_nothing_stale(once, files, again, files.len() as int);
    assert(files.take(files.len() as int) =~= files);
}

/// Where no file is stale an update skips all of them and changes nothing.
proof fn lemma_nothing_stale(
    table: FingerprintTable,
    files: Seq<SourceFileView>,
    mode: UpdateMode,
    n: int,
)
    requires
        0 <= n <= files.len(),
        forall|i: int| 0 <= i < files.len() ==> !stale_in(table, #[trigger] files[i], mode),
    ensures
        absent_count(stale_flags(table, files.take(n), mode)) == n,
        refreshed(table, files.take(n), mode) == table,
    decreases n,
{
    if n > 0 {
        lemma_nothing_stale(table, files, mode, n - 1);
        let part = files.take(n);
        assert(part.drop_last() =~= files.take(n - 1));
        assert(part.last() == files[n - 1]);
        let flags = stale_flags(table, part, mode);
        assert(flags.drop_last() =~= stale_flags(table, files.take(n - 1), mode));
        assert(!flags.last());
    } else {
        assert(stale_flags(table, files.take(0), mode) =~= Seq::<bool>::empty());
    }
}

/// After an update for one model, every file of the walk is entered under
/// that model: nothing that an earlier model left behind stands for a file
/// that was walked.
pub proof fn lemma_update_leaves_one_model(
    table: FingerprintTable,
    files: Seq<SourceFileView>,
    mode: UpdateMode,
    model: Seq<char>,
)
    requires
        distinct_paths(files),
        forall|i: int| 0 <= i < files.len() ==> (#[trigger] files[i]).fingerprint.model_id == model,
    ensures
        forall|i: int|
            0 <= i < files.len() ==> refreshed(table, files, mode).contains_key(
                (#[trigger] files[i]).path,
            ) && refreshed(table, files, mode)[files[i].path].model_id == model,
{
    lemma_refreshed(table, files, mode);
    assert forall|i: int| 0 <= i < files.len() implies refreshed(table, files, mode).contains_key(
        (#[trigger] files[i]).path,
    ) && refreshed(table, files, mode)[files[i].path].model_id == model by {
        if !stale_in(table, files[i], mode) {
            assert(table.contains_key(files[i].path));
        }
    }
}

/// The file of the walk that has this path: the last of them, were there
/// several.
pub open spec fn file_for(files: Seq<SourceFileView>, path: Seq<char>) -> Option<SourceFileView>
    decreases files.len(),
{
    if files.len() == 0 {
        None
    } else if files.last().path == path {
        Some(files.last())
    } else {
        file_for(files.drop_last(), path)
    }
}

/// Whether an entry takes part in a query: its source file is among the
/// files, the entry is not stale for it, and it holds embeddings where the
/// query needs them. An entry whose source is gone takes no part, nor one
/// that was built from other content or with another model.
pub open spec fn takes_part(
    entry: SidecarEntry,
    files: Seq<SourceFileView>,
    mode: UpdateMode,
    needs_embeddings: bool,
) -> bool {
    match file_for(files, entry.source@) {
        Some(f) => !needs_rebuild(Some(entry.fingerprint@), f.fingerprint, mode) && (
        !needs_embeddings || entry.embedding_count is Some),
        None => false,
    }
}

/// The positions, among the first `n` entries, of those that take part in a
/// query.
pub open spec fn taking_part(
    entries: Seq<SidecarEntry>,
    files: Seq<SourceFileView>,
    mode: UpdateMode,
    needs_embeddings: bool,
    n: int,
) -> Seq<usize>
    decreases n,
{
    if n <= 0 || n > entries.len() {
        Seq::<usize>::empty()
    } else if takes_part(entries[n - 1], files, mode, needs_embeddings) {
        taking_part(entries, files, mode, needs_embeddings, n - 1).push((n - 1) as usize)
    } else {
        taking_part(entries, files, mode, needs_embeddings, n - 1)
    }
}

fn find_file<'a>(files: &'a Vec<SourceFile>, path: &str) -> (found: Option<&'a SourceFile>)
    ensures
        match found {
            Some(f) => file_for(file_views(files@), path@) == Some(f@),
            None => file_for(file_views(files@), path@) is None,
        },
{
    let ghost views = file_views(files@);
    let mut i: usize = files.len();
    proof {
        assert(views.take(i as int) =~= views);
    }
    while i > 0
        invariant
            i <= files@.len(),
            views == file_views(files@),
            file_for(views, path@) == file_for(views.take(i as int), path@),
        decreases i,
    {
        proof {
            let upto = views.take(i as int);
            assert(upto.last() == files@[i - 1]@);
            assert(upto.drop_last() =~= views.take(i - 1));
        }
        if text_eq(files[i - 1].path.as_str(), path) {
            return Some(&files[i - 1]);
        }
        i = i - 1;
    }
    None
}

/// The positions of the entries that take part in a query, given the files
/// as they are now. A query by meaning needs embeddings; a query by text
/// does not.
pub fn searchable(
    store: &Store,
    files: &Vec<SourceFile>,
    mode: UpdateMode,
    needs_embeddings: bool,
) -> (positions: Vec<usize>)
    ensures
        positions@ == taking_part(
            store.entries@,
            file_views(files@),
            mode,
            needs_embeddings,
            store.entries@.len() as int,
        ),
{
    let mut positions: Vec<usize> = Vec::new();
    let mut i: usize = 0;
    while i < store.entries.len()
        invariant
            i <= store.entries@.len(),
            positions@ == taking_part(
                store.entries@,
                file_views(files@),
                mode,
                needs_embeddings,
                i as int,
            ),
        decreases store.entries@.len() - i,
    {
        let entry = &store.entries[i];
        let fresh = match find_file(files, entry.source.as_str()) {
            Some(f) => !Fingerprint::is_stale(Some(&entry.fingerprint), &f.fingerprint, mode) && (
            !needs_embeddings || entry.embedding_count.is_some()),
            None => false,
        };
        if fresh {
            positions.push(i);
        }
        i = i + 1;
    }
    positions
}

/// An entry that was built with another model than the files are asked for
/// takes no part in a query.
pub proof fn lemma_other_model_takes_no_part(
    entry: SidecarEntry,
    files: Seq<SourceFileView>,
    mode: UpdateMode,
    model: Seq<char>,
)
    requires
        forall|i: int| 0 <= i < files.len() ==> (#[trigger] files[i]).fingerprint.model_id == model,
        entry.fingerprint.model_id@ != model,
    ensures
        forall|needs_embeddings: bool| !takes_part(entry, files, mode, needs_embeddings),
{
    lemma_file_for_is_a_file(files, entry.source@);
}

proof fn lemma_file_for_is_a_file(files: Seq<SourceFileView>, path: Seq<char>)
    ensures
        file_for(files, path) matches Some(f) ==> files.contains(f),
    decreases files.len(),
{
    if files.len() > 0 {
        if files.last().path == path {
            assert(files[files.len() - 1] == files.last());
        } else {
            lemma_file_for_is_a_file(files.drop_last(), path);
            if let Some(f) = file_for(files.drop_last(), path) {
                let k = choose|k: int| 0 <= k < files.drop_last().len() && files.drop_last()[k] == f;
                assert(files[k] == f);
            }
        }
    }
}

} // verus!
