use crate::text::text_eq;
use vstd::prelude::*;

verus! {

/// The exact state of a source file that an index entry was built from.
#[derive(Debug)]
pub struct Fingerprint {
    pub content_hash: String,
    pub size: u64,
    pub mtime: u64,
    pub model_id: String,
}

/// A fingerprint as plain values.
pub struct FingerprintView {
    pub content_hash: Seq<char>,
    pub size: u64,
    pub mtime: u64,
    pub model_id: Seq<char>,
}

impl View for Fingerprint {
    type V = FingerprintView;

    open spec fn view(&self) -> FingerprintView {
        FingerprintView {
            content_hash: self.content_hash@,
            size: self.size,
            mtime: self.mtime,
            model_id: self.model_id@,
        }
    }
}

/// What a file's size and modification time say before its content is read.
#[derive(Clone, Copy, Debug, PartialEq, Eq, Structural)]
pub enum QuickVerdict {
    /// The entry must be rebuilt.
    Rebuild,
    /// The entry can be used as it is.
    Reuse,
    /// Only the content's hash can tell.
    NeedsHash,
}

/// What is asked of an update beyond the files themselves.
#[derive(Clone, Copy, Debug, PartialEq, Eq, Structural)]
pub struct UpdateMode {
    /// Rebuild every entry, whatever its fingerprint says.
    pub force_rebuild: bool,
    /// Hash every file, also where size and modification time are unchanged.
    pub always_hash: bool,
}

/// Whether an entry built from `stored` must be rebuilt for a file that is now
/// in state `current`. Another model always forces a rebuild. With the same
/// model, an unchanged size and modification time let the entry stand unless
/// every file is hashed; otherwise the content's hash decides.
pub open spec fn needs_rebuild(
    stored: Option<FingerprintView>,
    current: FingerprintView,
    mode: UpdateMode,
) -> bool {
    match stored {
        None => true,
        Some(s) => {
            ||| mode.force_rebuild
            ||| s.model_id != current.model_id
            ||| ((mode.always_hash || s.size != current.size || s.mtime != current.mtime)
                && s.content_hash != current.content_hash)
        },
    }
}

/// What can be said from size and modification time alone.
pub open spec fn quick_verdict(
    stored: Option<FingerprintView>,
    size: u64,
    mtime: u64,
    model: Seq<char>,
    mode: UpdateMode,
) -> QuickVerdict {
    match stored {
        None => QuickVerdict::Rebuild,
        Some(s) => if mode.force_rebuild || s.model_id != model {
            QuickVerdict::Rebuild
        } else if !mode.always_hash && s.size == size && s.mtime == mtime {
            QuickVerdict::Reuse
        } else {
            QuickVerdict::NeedsHash
        },
    }
}

impl Fingerprint {
    /// Whether the two fingerprints name the same state.
    pub fn same_as(&self, other: &Fingerprint) -> (same: bool)
        ensures
            same == (self@ == other@),
    {
        self.size == other.size && self.mtime == other.mtime && text_eq(
            self.content_hash.as_str(),
            other.content_hash.as_str(),
        ) && text_eq(self.model_id.as_str(), other.model_id.as_str())
    }

    /// The cheap first look at a file: no content is read for it.
    pub fn quick_check(
        stored: Option<&Fingerprint>,
        size: u64,
        mtime: u64,
        model: &str,
        mode: UpdateMode,
    ) -> (verdict: QuickVerdict)
        ensures
            verdict == quick_verdict(
                match stored {
                    Some(s) => Some(s@),
                    None => None,
                },
                size,
                mtime,
                model@,
                mode,
            ),
    {
        match stored {
            None => QuickVerdict::Rebuild,
            Some(s) => {
                if mode.force_rebuild || !text_eq(s.model_id.as_str(), model) {
                    QuickVerdict::Rebuild
                } else if !mode.always_hash && s.size == size && s.mtime == mtime {
                    QuickVerdict::Reuse
                } else {
                    QuickVerdict::NeedsHash
                }
            },
        }
    }

    /// The full decision, for a file whose content hash is known.
    pub fn is_stale(stored: Option<&Fingerprint>, current: &Fingerprint, mode: UpdateMode) -> (stale:
        bool)
        ensures
            stale == needs_rebuild(
                match stored {
                    Some(s) => Some(s@),
                    None => None,
                },
                current@,
                mode,
            ),
    {
        match Self::quick_check(stored, current.size, current.mtime, current.model_id.as_str(), mode) {
            QuickVerdict::Rebuild => true,
            QuickVerdict::Reuse => false,
            QuickVerdict::NeedsHash => match stored {
                Some(s) => !text_eq(s.content_hash.as_str(), current.content_hash.as_str()),
                None => true,
            },
        }
    }
}

/// The cheap look agrees with the full decision wherever it gives a verdict,
/// and where it asks for the hash, the hash alone decides.
pub proof fn lemma_quick_check_is_sound(
    stored: Option<FingerprintView>,
    current: FingerprintView,
    mode: UpdateMode,
)
    ensures
        match quick_verdict(stored, current.size, current.mtime, current.model_id, mode) {
            QuickVerdict::Rebuild => needs_rebuild(stored, current, mode),
            QuickVerdict::Reuse => !needs_rebuild(stored, current, mode),
            QuickVerdict::NeedsHash => stored is Some && (needs_rebuild(stored, current, mode) <==> stored->0.content_hash
                != current.content_hash),
        },
{
}

/// A change of model always forces a rebuild, and so does a change of
/// content that the size or the modification time shows, or any change of
/// content when every file is hashed.
pub proof fn lemma_change_forces_rebuild(
    stored: FingerprintView,
    current: FingerprintView,
    mode: UpdateMode,
)
    ensures
        stored.model_id != current.model_id ==> needs_rebuild(Some(stored), current, mode),
        stored.content_hash != current.content_hash && (mode.always_hash || stored.size
            != current.size || stored.mtime != current.mtime) ==> needs_rebuild(
            Some(stored),
            current,
            mode,
        ),
{
}

/// An entry is reused only for the very state it was built from, and, unless
/// a rebuild is forced, it is always reused for that state.
pub proof fn lemma_same_state_is_reused(
    stored: FingerprintView,
    current: FingerprintView,
    mode: UpdateMode,
)
    ensures
        stored == current && !mode.force_rebuild ==> !needs_rebuild(Some(stored), current, mode),
        !needs_rebuild(Some(stored), current, mode) && mode.always_hash ==> stored.content_hash
            == current.content_hash && stored.model_id == current.model_id,
{
}

} // verus!
