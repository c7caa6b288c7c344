use crate::engine::store::{SidecarEntry, Store};
use crate::error::CkError;
use vstd::prelude::*;

verus! {

/// Counters over an index: what the last update did, and what the index holds.
#[derive(Debug)]
pub struct IndexStats {
    pub files_indexed: usize,
    pub files_skipped: usize,
    pub chunks_created: usize,
    pub total_files: usize,
    pub total_chunks: usize,
    pub index_size_bytes: u64,
    /// Seconds since the Unix epoch at which the index last changed.
    pub last_modified: u64,
    /// The source paths of the entries whose source file is gone.
    pub orphaned_files: Vec<String>,
}

/// The chunks of the first `n` entries, counted.
pub open spec fn chunk_total(entries: Seq<SidecarEntry>, n: int) -> nat
    decreases n,
{
    if n <= 0 || n > entries.len() {
        0
    } else {
        chunk_total(entries, n - 1) + entries[n - 1].spans@.len()
    }
}

/// The sizes of the first `n` entries, added up.
pub open spec fn size_total(entries: Seq<SidecarEntry>, n: int) -> nat
    decreases n,
{
    if n <= 0 || n > entries.len() {
        0
    } else {
        size_total(entries, n - 1) + entries[n - 1].size_bytes as nat
    }
}

/// The sources of the first `n` entries whose flag in `present` is not set,
/// in their order.
pub open spec fn orphan_sources(entries: Seq<SidecarEntry>, present: Seq<bool>, n: int) -> Seq<
    Seq<char>,
>
    decreases n,
{
    if n <= 0 || n > entries.len() || n > present.len() {
        Seq::<Seq<char>>::empty()
    } else if present[n - 1] {
        orphan_sources(entries, present, n - 1)
    } else {
        orphan_sources(entries, present, n - 1).push(entries[n - 1].source@)
    }
}

impl Store {
    /// What the index holds. `present[i]` tells whether the source of entry
    /// `i` still exists; `last_modified` is the time of the last change.
    /// `None` where a total is more than its counter can hold.
    pub fn stats(&self, present: &Vec<bool>, last_modified: u64) -> (stats: Option<IndexStats>)
        requires
            present@.len() == self.entries@.len(),
        ensures
            stats is Some <==> chunk_total(self.entries@, self.entries@.len() as int) <= usize::MAX
                && size_total(self.entries@, self.entries@.len() as int) <= u64::MAX,
            stats matches Some(s) ==> {
                &&& s.files_indexed == 0 && s.files_skipped == 0 && s.chunks_created == 0
                &&& s.total_files == self.entries@.len()
                &&& s.total_chunks == chunk_total(self.entries@, self.entries@.len() as int)
                &&& s.index_size_bytes == size_total(self.entries@, self.entries@.len() as int)
                &&& s.last_modified == last_modified
                &&& s.orphaned_files.deep_view() == orphan_sources(
                    self.entries@,
                    present@,
                    self.entries@.len() as int,
                )
            },
    {
        let n = self.entries.len();
        let mut chunks: u128 = 0;
        let mut bytes: u128 = 0;
        let mut orphans: Vec<String> = Vec::new();
        let mut i: usize = 0;
        proof {
            assert(orphans.deep_view() =~= Seq::<Seq<char>>::empty());
        }
        while i < n
            invariant
                i <= n,
                n == self.entries@.len(),
                n == present@.len(),
                chunks == chunk_total(self.entries@, i as int),
                bytes == size_total(self.entries@, i as int),
                chunks <= i * usize::MAX,
                bytes <= i * u64::MAX,
                orphans.deep_view() == orphan_sources(self.entries@, present@, i as int),
            decreases n - i,
        {
            let e = &self.entries[i];
            proof {
                assert((i + 1) * usize::MAX == i * usize::MAX + usize::MAX) by (nonlinear_arith);
                assert((i + 1) * u64::MAX == i * u64::MAX + u64::MAX) by (nonlinear_arith);
                assert(i * usize::MAX <= usize::MAX * usize::MAX) by (nonlinear_arith)
                    requires
                        i <= usize::MAX,
                ;
                assert(i * u64::MAX <= usize::MAX * u64::MAX) by (nonlinear_arith)
                    requires
                        i <= usize::MAX,
                ;
            }
            chunks = chunks + e.spans.len() as u128;
            bytes = bytes + e.size_bytes as u128;
            if !present[i] {
                let ghost before = orphans.deep_view();
                orphans.push(e.source.clone());
                proof {
                    assert(orphans.deep_view() =~= before.push(e.source@));
                }
            }
            i = i + 1;
        }
        if chunks <= usize::MAX as u128 && bytes <= u64::MAX as u128 {
            Some(
                IndexStats {
                    files_indexed: 0,
                    files_skipped: 0,
                    chunks_created: 0,
                    total_files: n,
                    total_chunks: chunks as usize,
                    index_size_bytes: bytes as u64,
                    last_modified,
                    orphaned_files: orphans,
                },
            )
        } else {
            None
        }
    }
}

/// How the work on one file of an update ended.
#[derive(Clone, Copy, Debug, PartialEq, Eq, Structural)]
pub enum FileOutcome {
    /// The entry was rebuilt with this many chunks and their embeddings.
    Rebuilt { chunks: usize },
    /// The entry was rebuilt with this many chunks and no embeddings: the
    /// file can be found by its text, not by its meaning.
    StructureOnly { chunks: usize },
    /// The entry was up to date.
    Skipped,
    /// The rebuild failed; the walk goes on.
    Failed,
}

/// The counters of an update while it runs.
#[derive(Clone, Copy, Debug, PartialEq, Eq, Structural)]
pub struct UpdateTally {
    /// The files whose entry was rebuilt, with embeddings or without.
    pub files_indexed: usize,
    pub files_skipped: usize,
    pub files_failed: usize,
    pub chunks_created: usize,
    /// Those of the rebuilt files that have no embeddings.
    pub files_without_embeddings: usize,
}

/// The counters of an update as numbers without bounds.
pub struct TallyView {
    pub files_indexed: int,
    pub files_skipped: int,
    pub files_failed: int,
    pub chunks_created: int,
    pub files_without_embeddings: int,
}

/// What is said of an update in which every file failed.
pub const NOTHING_PROCESSED: &'static str = "no file could be processed";

/// How a rebuild ended, given the number of its chunks and how the embedding
/// went: without embeddings the file is still indexed by its structure; any
/// other error fails the file.
pub fn rebuild_outcome(chunks: usize, embedding: &Result<(), CkError>) -> (outcome: FileOutcome)
    ensures
        outcome == match *embedding {
            Ok(_) => FileOutcome::Rebuilt { chunks },
            Err(CkError::EmbeddingUnavailable { .. }) => FileOutcome::StructureOnly { chunks },
            Err(_) => FileOutcome::Failed,
        },
{
    match embedding {
        Ok(_) => FileOutcome::Rebuilt { chunks },
        Err(CkError::EmbeddingUnavailable { .. }) => FileOutcome::StructureOnly { chunks },
        Err(_) => FileOutcome::Failed,
    }
}

impl View for UpdateTally {
    type V = TallyView;

    open spec fn view(&self) -> TallyView {
        TallyView {
            files_indexed: self.files_indexed as int,
            files_skipped: self.files_skipped as int,
            files_failed: self.files_failed as int,
            chunks_created: self.chunks_created as int,
            files_without_embeddings: self.files_without_embeddings as int,
        }
    }
}

impl UpdateTally {
    /// The tally of an update that has seen no file yet.
    pub fn new() -> (tally: Self)
        ensures
            tally == (UpdateTally {
                files_indexed: 0,
                files_skipped: 0,
                files_failed: 0,
                chunks_created: 0,
                files_without_embeddings: 0,
            }),
    {
        UpdateTally {
            files_indexed: 0,
            files_skipped: 0,
            files_failed: 0,
            chunks_created: 0,
            files_without_embeddings: 0,
        }
    }

    /// The tally after one more file ended with `outcome`.
    pub open spec fn with_outcome(self, outcome: FileOutcome) -> TallyView {
        match outcome {
            FileOutcome::Rebuilt { chunks } => TallyView {
                files_indexed: self.files_indexed + 1,
                chunks_created: self.chunks_created + chunks,
                ..self@
            },
            FileOutcome::StructureOnly { chunks } => TallyView {
                files_indexed: self.files_indexed + 1,
                chunks_created: self.chunks_created + chunks,
                files_without_embeddings: self.files_without_embeddings + 1,
                ..self@
            },
            FileOutcome::Skipped => TallyView { files_skipped: self.files_skipped + 1, ..self@ },
            FileOutcome::Failed => TallyView { files_failed: self.files_failed + 1, ..self@ },
        }
    }

    /// The counters can take one more file that ended with `outcome`.
    pub open spec fn has_room(self, outcome: FileOutcome) -> bool {
        let next = self.with_outcome(outcome);
        next.files_indexed <= usize::MAX && next.files_skipped <= usize::MAX && next.files_failed
            <= usize::MAX && next.chunks_created <= usize::MAX && next.files_without_embeddings
            <= usize::MAX
    }

    /// Whether the counters can take one more file that ended with `outcome`.
    pub fn fits(&self, outcome: FileOutcome) -> (ok: bool)
        ensures
            ok == self.has_room(outcome),
    {
        match outcome {
            FileOutcome::Rebuilt { chunks } => self.files_indexed < usize::MAX
                && self.chunks_created <= usize::MAX - chunks,
            FileOutcome::StructureOnly { chunks } => self.files_indexed < usize::MAX
                && self.chunks_created <= usize::MAX - chunks && self.files_without_embeddings
                < usize::MAX,
            FileOutcome::Skipped => self.files_skipped < usize::MAX,
            FileOutcome::Failed => self.files_failed < usize::MAX,
        }
    }

    /// Counts one more file.
    pub fn record(&mut self, outcome: FileOutcome)
        requires
            old(self).has_room(outcome),
        ensures
            final(self)@ == old(self).with_outcome(outcome),
    {
        match outcome {
            FileOutcome::Rebuilt { chunks } => {
                self.files_indexed = self.files_indexed + 1;
                self.chunks_created = self.chunks_created + chunks;
            },
            FileOutcome::StructureOnly { chunks } => {
                self.files_indexed = self.files_indexed + 1;
                self.chunks_created = self.chunks_created + chunks;
                self.files_without_embeddings = self.files_without_embeddings + 1;
            },
            FileOutcome::Skipped => {
                self.files_skipped = self.files_skipped + 1;
            },
            FileOutcome::Failed => {
                self.files_failed = self.files_failed + 1;
            },
        }
    }

    /// Whether the update failed as a whole: files failed and none was
    /// rebuilt or skipped.
    pub open spec fn is_fatal(self) -> bool {
        self.files_failed > 0 && self.files_indexed == 0 && self.files_skipped == 0
    }

    /// Closes the update under `root`: its counters go into `stats`, what the
    /// index holds after it. Single files that failed do not fail the update;
    /// it fails where no file at all could be processed.
    pub fn finish(self, root: &str, stats: IndexStats) -> (done: Result<IndexStats, CkError>)
        ensures
            self.is_fatal() <==> done is Err,
            done matches Err(e) ==> (e matches CkError::IndexingFailed { path, reason, suggestion }
                && path@ == root@ && reason@ == NOTHING_PROCESSED@ && suggestion is None),
            done matches Ok(s) ==> {
                &&& s.files_indexed == self.files_indexed
                &&& s.files_skipped == self.files_skipped
                &&& s.chunks_created == self.chunks_created
                &&& s.total_files == stats.total_files
                &&& s.total_chunks == stats.total_chunks
                &&& s.index_size_bytes == stats.index_size_bytes
                &&& s.last_modified == stats.last_modified
                &&& s.orphaned_files == stats.orphaned_files
            },
    {
        if self.files_failed > 0 && self.files_indexed == 0 && self.files_skipped == 0 {
            return Err(
                CkError::IndexingFailed {
                    path: root.to_owned(),
                    reason: NOTHING_PROCESSED.to_owned(),
                    suggestion: None,
                },
            );
        }
        let mut stats = stats;
        stats.files_indexed = self.files_indexed;
        stats.files_skipped = self.files_skipped;
        stats.chunks_created = self.chunks_created;
        Ok(stats)
    }
}

} // verus!
