//! Planning the output directory for one run: a deterministic name
//! derived from the resolved window, created only if the root exists
//! and the destination does not.

use crate::digits::{dec_of, u64_to_string};
use crate::time::{compact_utc_of, format_compact_utc};
use crate::window::ResolvedWindow;
use vstd::prelude::*;

verus! {

/// Why the output directory could not be set up.
#[derive(PartialEq, Eq, Debug)]
pub enum DirectoryError {
    /// The requested root directory does not exist.
    RootMissing,
    /// The destination subdirectory already exists, so this run would
    /// merge with a prior run's output.
    AlreadyExists,
    /// The filesystem refused to create the subdirectory.
    CreateFailed(String),
}

/// The deterministic subdirectory name encoding the window:
/// `images_<start>_to_<end>_stride_<N>m`, with the instants rendered
/// as compact UTC timestamps.
pub open spec fn subdirectory_name_spec(w: ResolvedWindow) -> Seq<char> {
    "images_"@ + compact_utc_of(w.start.secs as int) + "_to_"@ + compact_utc_of(
        w.end.secs as int,
    ) + "_stride_"@ + dec_of(w.stride_minutes as nat) + "m"@
}

/// Renders the deterministic subdirectory name for `w`. The name
/// depends only on the window, never on the wall clock, so two runs
/// over the same window collide deterministically.
pub fn subdirectory_name(w: &ResolvedWindow) -> (r: String)
    requires
        w.wf(),
    ensures
        r@ == subdirectory_name_spec(*w),
{
    let mut s = String::from_str("images_");
    s.append(format_compact_utc(&w.start).as_str());
    s.append("_to_");
    s.append(format_compact_utc(&w.end).as_str());
    s.append("_stride_");
    s.append(u64_to_string(w.stride_minutes as u64).as_str());
    s.append("m");
    proof {
        assert(s@ =~= subdirectory_name_spec(*w));
    }
    s
}

/// Decides the destination for one run, given whether the root and
/// the destination subdirectory exist: fails with `RootMissing` or
/// `AlreadyExists` respectively (in that order), and otherwise names
/// the fresh subdirectory to create. Pure: the caller performs the
/// filesystem work, before any network activity.
pub fn plan_directory(root_exists: bool, subdir_exists: bool, w: &ResolvedWindow) -> (r: Result<
    String,
    DirectoryError,
>)
    requires
        w.wf(),
    ensures
        !root_exists ==> r == Err::<String, DirectoryError>(DirectoryError::RootMissing),
        root_exists && subdir_exists ==> r == Err::<String, DirectoryError>(
            DirectoryError::AlreadyExists,
        ),
        root_exists && !subdir_exists ==> r is Ok && r->Ok_0@ == subdirectory_name_spec(*w),
{
    if !root_exists {
        return Err(DirectoryError::RootMissing);
    }
    if subdir_exists {
        return Err(DirectoryError::AlreadyExists);
    }
    Ok(subdirectory_name(w))
}

} // verus!
