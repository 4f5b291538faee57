use vstd::prelude::*;

use crate::error::Error;
use crate::resource::{checksum_of, finish_resources, map_resources, overwrite_guard, target_of, LocalResource};
use crate::traverse::LocalPath;
use crate::url::{UrlDirPath, UrlPath};

verus! {

/// Where the planning of an upload stands.
#[derive(Debug, Clone, Copy, PartialEq, Eq)]
pub enum PlanPhase {
    /// The remote prefix has not been checked yet.
    AwaitingListing,
    /// The prefix may be written to: local files are being collected.
    Collecting,
    /// The prefix already holds content and overwriting was not allowed.
    Refused,
}

/// The plan of an upload: the overwrite guard first, then the resources of
/// every local input, mapped below the prefix and hashed when asked to.
pub struct UploadPlan {
    prefix: UrlPath,
    overwrite: bool,
    checksum: bool,
    phase: PlanPhase,
    resources: Vec<LocalResource>,
}

impl UploadPlan {
    pub closed spec fn spec_prefix(&self) -> Seq<char> {
        self.prefix@
    }

    pub closed spec fn spec_overwrite(&self) -> bool {
        self.overwrite
    }

    pub closed spec fn spec_checksum(&self) -> bool {
        self.checksum
    }

    pub closed spec fn spec_phase(&self) -> PlanPhase {
        self.phase
    }

    /// The resources collected so far.
    pub closed spec fn spec_resources(&self) -> Seq<LocalResource> {
        self.resources@
    }

    /// Nothing is collected before the guard has let the upload go on.
    pub closed spec fn wf(&self) -> bool {
        self.phase != PlanPhase::Collecting ==> self.resources@.len() == 0
    }

    /// A plan that has checked nothing and collected nothing.
    pub fn new(prefix: UrlPath, overwrite: bool, checksum: bool) -> (r: UploadPlan)
        ensures
            r.wf(),
            r.spec_prefix() == prefix@,
            r.spec_overwrite() == overwrite,
            r.spec_checksum() == checksum,
            r.spec_phase() == PlanPhase::AwaitingListing,
            r.spec_resources().len() == 0,
    {
        UploadPlan { prefix, overwrite, checksum, phase: PlanPhase::AwaitingListing, resources: Vec::new() }
    }

    pub fn phase(&self) -> (r: PlanPhase)
        ensures
            r == self.spec_phase(),
    {
        self.phase
    }

    /// The remote directory whose listing the guard needs.
    pub fn remote_dir(&self) -> (r: UrlDirPath)
        ensures
            r@ == self.spec_prefix() + seq!['/'],
    {
        self.prefix.as_dir()
    }

    /// Whether the remote directory must be listed: only where overwriting
    /// was not allowed.
    pub fn needs_listing(&self) -> (r: bool)
        ensures
            r == !self.spec_overwrite(),
    {
        !self.overwrite
    }

    /// Applies the overwrite guard to a listing of `items_found` entries under
    /// the remote directory. A refused plan stays refused and collects nothing.
    pub fn check_listing(&mut self, items_found: usize) -> (r: Result<(), Error>)
        requires
            old(self).wf(),
            old(self).spec_phase() == PlanPhase::AwaitingListing,
        ensures
            final(self).wf(),
            final(self).spec_prefix() == old(self).spec_prefix(),
            final(self).spec_overwrite() == old(self).spec_overwrite(),
            final(self).spec_checksum() == old(self).spec_checksum(),
            final(self).spec_resources() == old(self).spec_resources(),
            r is Ok <==> (old(self).spec_overwrite() || items_found == 0),
            r is Ok ==> final(self).spec_phase() == PlanPhase::Collecting,
            r is Err ==> final(self).spec_phase() == PlanPhase::Refused,
            r matches Err(e) ==> (e matches Error::Operations(m) && m@ == old(self).spec_prefix()
                + seq!['/']),
    {
        let dir = self.prefix.as_dir();
        let r = overwrite_guard(&dir, self.overwrite, items_found);
        match r {
            Ok(()) => {
                self.phase = PlanPhase::Collecting;
            },
            Err(_) => {
                self.phase = PlanPhase::Refused;
            },
        }
        r
    }

    /// Adds the files of one local input, relative to the working directory.
    /// `contents[i]` is the content of `files[i]`, read only when checksums are
    /// asked for. A file that does not map to a remote path fails the plan's
    /// step and adds nothing.
    pub fn add(&mut self, files: &Vec<LocalPath>, contents: &Vec<Vec<u8>>) -> (r: Result<(), Error>)
        requires
            old(self).wf(),
            old(self).spec_phase() == PlanPhase::Collecting,
            old(self).spec_checksum() ==> contents@.len() == files@.len(),
        ensures
            final(self).wf(),
            final(self).spec_phase() == PlanPhase::Collecting,
            final(self).spec_prefix() == old(self).spec_prefix(),
            final(self).spec_overwrite() == old(self).spec_overwrite(),
            final(self).spec_checksum() == old(self).spec_checksum(),
            r is Ok <==> forall|i: int|
                0 <= i < files@.len() ==> (#[trigger] target_of(old(self).spec_prefix(), files@[i]@)) is Some,
            r matches Err(e) ==> e is Parse,
            r is Err ==> final(self).spec_resources() == old(self).spec_resources(),
            r is Ok ==> final(self).spec_resources().len() == old(self).spec_resources().len()
                + files@.len(),
            r is Ok ==> forall|i: int|
                0 <= i < old(self).spec_resources().len() ==> #[trigger] final(self).spec_resources()[i]
                    == old(self).spec_resources()[i],
            r is Ok ==> forall|i: int|
                0 <= i < files@.len() ==> {
                    let res = #[trigger] final(self).spec_resources()[old(self).spec_resources().len() + i];
                    &&& res.path@ == files@[i]@
                    &&& target_of(old(self).spec_prefix(), files@[i]@) == Some(res.url@)
                    &&& old(self).spec_checksum() ==> (res.checksum matches Some(c) && c@
                        == checksum_of(contents@[i]@))
                    &&& !old(self).spec_checksum() ==> res.checksum is None
                },
    {
        let mapped = map_resources(&self.prefix, files);
        match mapped {
            Err(e) => Err(e),
            Ok(mapped) => {
                let done = finish_resources(mapped, self.checksum, contents);
                let mut done = done;
                let ghost before = self.resources@;
                let ghost added = done@;
                self.resources.append(&mut done);
                proof {
                    assert(self.resources@ =~= before + added);
                    assert forall|i: int| 0 <= i < files@.len() implies {
                        let res = #[trigger] self.resources@[before.len() + i];
                        &&& res.path@ == files@[i]@
                        &&& target_of(old(self).prefix@, files@[i]@) == Some(res.url@)
                    } by {
                        assert(self.resources@[before.len() + i] == added[i]);
                    }
                }
                Ok(())
            },
        }
    }

    /// The resources collected, once the guard has let the upload go on.
    pub fn into_resources(self) -> (r: Vec<LocalResource>)
        requires
            self.spec_phase() == PlanPhase::Collecting,
        ensures
            r@ == self.spec_resources(),
    {
        self.resources
    }
}

/// A plan that the guard refused holds no resource, and every step that adds
/// one, or hands them out, asks for a plan that is collecting: nothing is
/// traversed, mapped or uploaded for it.
pub proof fn refused_plan_collects_nothing(p: &UploadPlan)
    requires
        p.wf(),
        p.spec_phase() == PlanPhase::Refused,
    ensures
        p.spec_resources().len() == 0,
{
}

} // verus!
