//! The per-request working area: the directory that holds every protocol
//! artifact, its deterministic naming, and the guard that owns its removal.

use vstd::prelude::*;
use vstd::string::*;

verus! {

/// Name of the request artifact inside the working area.
pub const REQUEST_FILE_NAME: &'static str = "config.json";

/// Name of the result artifact inside the working area.
pub const RESULT_FILE_NAME: &'static str = "result.json";

/// Name of the live-update command file inside the working area.
pub const COMMAND_FILE_NAME: &'static str = "command.json";

/// Name of the command-response file inside the working area.
pub const COMMAND_RESPONSE_FILE_NAME: &'static str = "command_response.json";

/// The working-area directory name for a request id.
pub open spec fn spec_work_area_dir(id: Seq<char>) -> Seq<char> {
    "html_view_"@ + id
}

/// Derive the working-area directory name from a request id.
pub fn work_area_dir_name(id: &str) -> (r: String)
    ensures
        r@ == spec_work_area_dir(id@),
{
    let mut s = String::from_str("html_view_");
    s.append(id);
    s
}

/// Distinct request ids always get distinct working areas: two requests
/// can only collide on the directory they use if they share an id.
pub proof fn lemma_work_area_unique(id1: Seq<char>, id2: Seq<char>)
    requires
        id1 != id2,
    ensures
        spec_work_area_dir(id1) != spec_work_area_dir(id2),
{
    reveal_strlit("html_view_");
    if spec_work_area_dir(id1) == spec_work_area_dir(id2) {
        assert(spec_work_area_dir(id1).skip(10) =~= id1);
        assert(spec_work_area_dir(id2).skip(10) =~= id2);
    }
}

/// Join a directory name and a file name with a path separator.
pub fn join_path(dir: &str, file: &str) -> (r: String)
    ensures
        r@ == dir@ + "/"@ + file@,
{
    let mut s = String::from_str(dir);
    s.append("/");
    s.append(file);
    s
}

/// Scoped ownership of a working area.  The guard is created armed; the
/// owner that still holds an armed guard when the request is over must
/// remove the directory, and `finish` hands the path out for removal at
/// most once.  Disarming transfers ownership away without removing
/// anything.
#[derive(Debug, Clone)]
pub struct WorkAreaGuard {
    /// The working-area directory this guard owns.
    pub dir: String,
    /// Whether this guard still owes the removal of its directory.
    pub armed: bool,
}

impl WorkAreaGuard {
    /// Take ownership of a working-area directory; the new guard is armed.
    pub fn new(dir: String) -> (g: Self)
        ensures
            g.dir == dir,
            g.armed,
    {
        WorkAreaGuard { dir, armed: true }
    }

    /// The directory this guard owns.
    pub fn dir(&self) -> (r: &String)
        ensures
            r == self.dir,
    {
        &self.dir
    }

    /// Whether this guard still owes the removal of its directory.
    pub fn is_armed(&self) -> (r: bool)
        ensures
            r == self.armed,
    {
        self.armed
    }

    /// Give up cleanup responsibility without removing anything, used when
    /// ownership of the working area is transferred to a handle.
    pub fn disarm(&mut self)
        ensures
            !final(self).armed,
            final(self).dir == old(self).dir,
    {
        self.armed = false;
    }

    /// The path to remove now, if this guard still owns it.  Removal is
    /// handed out exactly once: the guard disarms itself, so a second call
    /// returns nothing, and so does a call on a guard whose ownership was
    /// transferred away.
    pub fn finish(&mut self) -> (r: Option<String>)
        ensures
            old(self).armed ==> (r matches Some(d) && d == old(self).dir),
            !old(self).armed ==> r is None,
            !final(self).armed,
            final(self).dir == old(self).dir,
    {
        if self.armed {
            self.armed = false;
            Some(self.dir.clone())
        } else {
            None
        }
    }
}

} // verus!
