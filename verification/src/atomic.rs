//! Model of the atomic file writer: serialize to a temporary sibling
//! file, then rename over the destination.  A reader of the destination
//! observes either the prior complete content or the new complete
//! content, never a partial write.  The shell mirrors these two steps
//! with real file operations for every JSON document it stores.

use vstd::prelude::*;

verus! {

/// One destination path and its temporary sibling.
#[derive(Clone, Debug)]
pub struct FileState {
    /// Content of the destination file, if it exists.
    pub main: Option<String>,
    /// Content of the temporary sibling file, if it exists.
    pub temp: Option<String>,
}

/// First step: write the full new content to the temporary sibling.
/// The destination is untouched, so a crash after this step leaves the
/// prior content readable.
pub fn write_temp(f: &mut FileState, data: String)
    ensures
        final(f).main == old(f).main,
        final(f).temp == Some(data),
{
    f.temp = Some(data);
}

/// Second step: atomically rename the temporary file over the
/// destination.
pub fn commit_rename(f: &mut FileState)
    requires
        old(f).temp is Some,
    ensures
        final(f).main == old(f).temp,
        final(f).temp is None,
{
    let mut t: Option<String> = None;
    std::mem::swap(&mut t, &mut f.temp);
    f.main = t;
}

/// Both steps back to back: afterwards the destination holds exactly
/// the new content and no temporary file is left behind.
pub fn atomic_write(f: &mut FileState, data: String)
    ensures
        final(f).main == Some(data),
        final(f).temp is None,
{
    write_temp(f, data);
    commit_rename(f);
}

} // verus!
