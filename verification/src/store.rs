//! A model of the crash-safe write protocol the durable stores use:
//! write the full new content to a staging location, then replace the
//! target in one atomic step. At every point between the two steps the
//! target still holds its old content in full, so an interruption leaves
//! either the old or the new record, never a torn one. The hosting
//! program mirrors these two steps with its file system.
use vstd::prelude::*;

verus! {

/// One durable location written through a staging area. `target` is the
/// content a reader of the location would see; `staged` is the content
/// written to the staging location but not yet published.
pub struct StagedFile {
    target: Option<String>,
    staged: Option<String>,
}

impl StagedFile {
    /// What a reader of the location sees.
    pub closed spec fn spec_target(&self) -> Option<Seq<char>> {
        match self.target {
            Some(ref s) => Some(s@),
            None => None,
        }
    }

    /// What has been staged and not yet published.
    pub closed spec fn spec_staged(&self) -> Option<Seq<char>> {
        match self.staged {
            Some(ref s) => Some(s@),
            None => None,
        }
    }

    /// A location that was never written.
    pub fn new() -> (r: StagedFile)
        ensures
            r.spec_target() is None,
            r.spec_staged() is None,
    {
        StagedFile { target: None, staged: None }
    }

    /// Write the full new content to the staging location. The target —
    /// what a reader sees, and what an interruption here would leave —
    /// is untouched.
    pub fn stage(&mut self, content: String)
        ensures
            final(self).spec_target() == old(self).spec_target(),
            final(self).spec_staged() == Some(content@),
    {
        self.staged = Some(content);
    }

    /// Publish the staged content: in one step the target becomes the
    /// staged content, which is never partially visible.
    pub fn commit(&mut self)
        requires
            old(self).spec_staged() is Some,
        ensures
            final(self).spec_target() == old(self).spec_staged(),
            final(self).spec_staged() is None,
    {
        let staged = self.staged.take();
        self.target = staged;
    }

    /// Read the target, as a load of the record would.
    pub fn read(&self) -> (r: Option<&String>)
        ensures
            (match r {
                Some(s) => self.spec_target() == Some(s@),
                None => self.spec_target() is None,
            }),
    {
        self.target.as_ref()
    }
}

/// The crash-safety of the staged write: before the commit the reader
/// still sees the old content in full, and after it the new content in
/// full — at no point anything else.
pub proof fn lemma_staged_write_atomic(f0: StagedFile, f1: StagedFile, f2: StagedFile, c: Seq<char>)
    requires
        f1.spec_target() == f0.spec_target(),
        f1.spec_staged() == Some(c),
        f2.spec_target() == f1.spec_staged(),
    ensures
        f1.spec_target() == f0.spec_target(),
        f2.spec_target() == Some(c),
{
}

/// Saving a profile through the staged protocol is crash-safe and
/// faithful: before the commit a reader still sees the prior record in
/// full, and after it the stored document parses back to exactly the
/// profile that was written.
pub proof fn lemma_profile_save_round(
    before: StagedFile,
    staged: StagedFile,
    committed: StagedFile,
    p: crate::save::PlayerProfile,
)
    requires
        crate::save::spec_profile_wf(p),
        staged.spec_target() == before.spec_target(),
        staged.spec_staged() == Some(crate::codec::spec_encode_profile(p)),
        committed.spec_target() == staged.spec_staged(),
    ensures
        staged.spec_target() == before.spec_target(),
        committed.spec_target() == Some(crate::codec::spec_encode_profile(p)),
        crate::codec::spec_parse_profile(crate::codec::spec_encode_profile(p)) == Some(
            (p.username@, p.plane_style, p.permanent.bullet_level, p.permanent.max_lives),
        ),
{
    crate::codec::lemma_profile_roundtrip(p);
}

} // verus!
