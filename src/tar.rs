//! The decisions of extracting a tar archive, one entry at a time.
//!
//! The caller reads the archive and touches the file system; an
//! [`Extraction`] decides, for each entry, where it goes and whether it is
//! written, and collects the paths that make up the result.
use vstd::prelude::*;
use crate::decompressor::{destination_of, destination_path, DecompressionResult, File};
use crate::overwrite::{answer_writes, state_after, step_for, Answer, Confirmation, Flags, Step};
use crate::paths::{is_resolved, is_resolved_path, is_safe_entry, is_safe_entry_path, join, joined};

verus! {

/// The decoder for tar archives.
#[derive(Debug)]
pub struct TarDecompressor {}

/// Why an extraction stops.
#[derive(Debug)]
pub enum ExtractError {
    /// The entry's path is empty, absolute, or has a `..` segment.
    UnsafeEntryPath(String),
    /// A written file's path did not come back in resolved form.
    UnresolvedPath(String),
}

/// The state of one extraction: where it writes, under which policy, what
/// was answered so far and which files were written.
pub struct Extraction {
    destination: String,
    flags: Flags,
    confirmation: Confirmation,
    files_unpacked: Vec<String>,
}

impl Extraction {
    #[verifier::type_invariant]
    spec fn paths_resolved(&self) -> bool {
        forall|i: int|
            0 <= i < self.files_unpacked@.len() ==> is_resolved_path(
                #[trigger] self.files_unpacked@[i]@,
            )
    }

    pub closed spec fn destination(&self) -> Seq<char> {
        self.destination@
    }

    pub closed spec fn flags(&self) -> Flags {
        self.flags
    }

    pub closed spec fn confirmation(&self) -> Confirmation {
        self.confirmation
    }

    /// The paths recorded so far, in order.
    pub closed spec fn unpacked(&self) -> Seq<Seq<char>> {
        self.files_unpacked@.map_values(|s: String| s@)
    }

    /// A fresh extraction into `destination`: nothing answered, nothing
    /// written.
    pub fn new(destination: String, flags: Flags) -> (r: Extraction)
        ensures
            r.destination() == destination@,
            r.flags() == flags,
            r.confirmation() == Confirmation::Undecided,
            r.unpacked() == Seq::<Seq<char>>::empty(),
    {
        let r = Extraction {
            destination,
            flags,
            confirmation: Confirmation::new(),
            files_unpacked: Vec::new(),
        };
        assert(r.unpacked() =~= Seq::<Seq<char>>::empty());
        r
    }

    /// The path that the entry with internal path `entry_path` is written
    /// to, or the error for an entry that would land outside the
    /// destination.
    pub fn target_of(&self, entry_path: &str) -> (r: Result<String, ExtractError>)
        ensures
            is_safe_entry_path(entry_path@) ==> (r matches Ok(t) && t@ == joined(
                self.destination(),
                entry_path@,
            )),
            !is_safe_entry_path(entry_path@) ==> (r matches Err(ExtractError::UnsafeEntryPath(p))
                && p@ == entry_path@),
    {
        if is_safe_entry(entry_path) {
            Ok(join(self.destination.as_str(), entry_path))
        } else {
            Err(ExtractError::UnsafeEntryPath(entry_path.to_owned()))
        }
    }

    /// What to do with an entry whose target exists, or not.
    pub fn decide(&self, exists: bool) -> (r: Step)
        ensures
            r == step_for(self.flags(), self.confirmation(), exists),
    {
        self.confirmation.decide(self.flags, exists)
    }

    /// Takes in the answer to the overwrite question and returns whether the
    /// entry at hand is written.
    pub fn answer(&mut self, a: Answer) -> (r: bool)
        ensures
            r == answer_writes(a),
            final(self).confirmation() == state_after(old(self).confirmation(), a),
            final(self).destination() == old(self).destination(),
            final(self).flags() == old(self).flags(),
            final(self).unpacked() == old(self).unpacked(),
    {
        proof {
            use_type_invariant(&*self);
        }
        let mut c = self.confirmation;
        let r = c.answer(a);
        self.confirmation = c;
        r
    }

    /// Records the resolved path of a file just written. A path that is not
    /// in resolved form is refused and nothing is recorded.
    pub fn record(&mut self, written: String) -> (r: Result<(), ExtractError>)
        ensures
            final(self).destination() == old(self).destination(),
            final(self).flags() == old(self).flags(),
            final(self).confirmation() == old(self).confirmation(),
            is_resolved_path(written@) ==> r is Ok && final(self).unpacked() == old(
                self,
            ).unpacked().push(written@),
            !is_resolved_path(written@) ==> (r matches Err(ExtractError::UnresolvedPath(p))
                && p@ == written@ && final(self).unpacked() == old(self).unpacked()),
    {
        if is_resolved(written.as_str()) {
            proof {
                use_type_invariant(&*self);
            }
            let ghost before = self.unpacked();
            let mut files = Vec::new();
            std::mem::swap(&mut self.files_unpacked, &mut files);
            files.push(written);
            std::mem::swap(&mut self.files_unpacked, &mut files);
            assert(self.unpacked() =~= before.push(written@));
            Ok(())
        } else {
            Err(ExtractError::UnresolvedPath(written))
        }
    }

    /// Ends the extraction with the files written, in the order recorded.
    pub fn finish(self) -> (r: DecompressionResult)
        ensures
            r matches DecompressionResult::FilesUnpacked(v) && v@.map_values(|s: String| s@)
                == self.unpacked(),
            r matches DecompressionResult::FilesUnpacked(v) && forall|i: int|
                0 <= i < v@.len() ==> is_resolved_path(#[trigger] v@[i]@),
    {
        proof {
            use_type_invariant(&self);
        }
        DecompressionResult::FilesUnpacked(self.files_unpacked)
    }
}

impl TarDecompressor {
    pub fn new() -> (r: TarDecompressor) {
        TarDecompressor {  }
    }

    /// Starts extracting into the destination that `into` names (the
    /// current directory when there is none).
    pub fn begin(&self, into: &Option<File>, flags: Flags) -> (r: Extraction)
        ensures
            r.destination() == destination_of(*into),
            r.flags() == flags,
            r.confirmation() == Confirmation::Undecided,
            r.unpacked() == Seq::<Seq<char>>::empty(),
    {
        Extraction::new(destination_path(into), flags)
    }
}

} // verus!
