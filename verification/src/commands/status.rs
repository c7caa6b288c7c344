use crate::commands::{Command, CommandContext};
use crate::engine::stats::IndexStats;
use vstd::prelude::*;

verus! {

/// Shows what the index under a path holds.
pub struct StatusCommand {
    pub path: String,
    pub verbose: bool,
    pub context: CommandContext,
}

/// How many orphaned entries a report lists by name.
pub const LISTED_ORPHANS: usize = 10;

/// The orphaned entries of a verbose report.
#[derive(Debug)]
pub struct OrphanListing {
    /// How many entries are orphaned.
    pub count: usize,
    /// The first of them, at most `LISTED_ORPHANS`.
    pub listed: Vec<String>,
    /// How many are left unnamed.
    pub more: usize,
}

/// The details of a verbose report.
#[derive(Debug)]
pub struct StatusDetails {
    pub index_size_bytes: u64,
    pub last_modified: u64,
    /// Present when at least one entry is orphaned.
    pub orphans: Option<OrphanListing>,
}

/// What a status command has to show.
#[derive(Debug)]
pub enum StatusReport {
    /// Nothing is indexed yet.
    NoIndex,
    /// The index holds files; `details` is present in verbose mode.
    Summary { total_files: usize, total_chunks: usize, details: Option<StatusDetails> },
}

impl OrphanListing {
    /// This listing names the first orphans of `orphans` and counts the rest.
    pub open spec fn lists(self, orphans: Seq<Seq<char>>) -> bool {
        &&& self.count == orphans.len()
        &&& self.listed.deep_view() == if orphans.len() <= LISTED_ORPHANS {
            orphans
        } else {
            orphans.take(LISTED_ORPHANS as int)
        }
        &&& self.more == if orphans.len() <= LISTED_ORPHANS {
            0
        } else {
            orphans.len() - LISTED_ORPHANS
        }
    }
}

impl StatusReport {
    /// This report is the one that `stats` calls for.
    pub open spec fn shows(self, stats: IndexStats, verbose: bool) -> bool {
        if stats.total_files == 0 {
            self is NoIndex
        } else {
            &&& self matches StatusReport::Summary { total_files, total_chunks, details }
            &&& total_files == stats.total_files
            &&& total_chunks == stats.total_chunks
            &&& details is Some <==> verbose
            &&& details matches Some(d) ==> {
                &&& d.index_size_bytes == stats.index_size_bytes
                &&& d.last_modified == stats.last_modified
                &&& d.orphans is Some <==> stats.orphaned_files@.len() > 0
                &&& d.orphans matches Some(listing) ==> listing.lists(
                    stats.orphaned_files.deep_view(),
                )
            }
        }
    }
}

impl StatusCommand {
    pub fn new(path: String) -> (command: Self)
        ensures
            command.path == path,
            !command.verbose,
            command.context.is_initial(),
    {
        StatusCommand { path, verbose: false, context: CommandContext::default() }
    }

    /// The report for an index with these counters.
    pub fn report(&self, stats: &IndexStats) -> (report: StatusReport)
        ensures
            report.shows(*stats, self.verbose),
    {
        if stats.total_files == 0 {
            return StatusReport::NoIndex;
        }
        let details = if self.verbose {
            let orphans = if stats.orphaned_files.len() > 0 {
                Some(list_orphans(&stats.orphaned_files))
            } else {
                None
            };
            Some(
                StatusDetails {
                    index_size_bytes: stats.index_size_bytes,
                    last_modified: stats.last_modified,
                    orphans,
                },
            )
        } else {
            None
        };
        StatusReport::Summary {
            total_files: stats.total_files,
            total_chunks: stats.total_chunks,
            details,
        }
    }
}

fn list_orphans(orphans: &Vec<String>) -> (listing: OrphanListing)
    ensures
        listing.lists(orphans.deep_view()),
{
    let shown: usize = if orphans.len() <= LISTED_ORPHANS {
        orphans.len()
    } else {
        LISTED_ORPHANS
    };
    let mut listed: Vec<String> = Vec::new();
    let mut i: usize = 0;
    while i < shown
        invariant
            i <= shown <= orphans.len(),
            listed@.len() == i,
            forall|j: int| 0 <= j < i ==> listed@[j]@ == orphans@[j]@,
        decreases shown - i,
    {
        listed.push(orphans[i].clone());
        i = i + 1;
    }
    proof {
        assert(listed.deep_view() =~= orphans.deep_view().take(shown as int));
        if orphans.len() <= LISTED_ORPHANS {
            assert(orphans.deep_view().take(shown as int) =~= orphans.deep_view());
        }
    }
    OrphanListing { count: orphans.len(), listed, more: orphans.len() - shown }
}

impl Command for StatusCommand {
    open spec fn name_text(&self) -> Seq<char> {
        "status"@
    }

    open spec fn problem(&self) -> Option<Seq<char>> {
        None
    }

    fn name(&self) -> (name: &'static str) {
        "status"
    }

    fn validate(&self) -> (checked: Result<(), String>) {
        Ok(())
    }
}

} // verus!
