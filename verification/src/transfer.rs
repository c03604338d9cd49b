//! The transfer engine: destination resolution, progress accounting, and the
//! chunked copy loop.
//!
//! The file and channel I/O of a live transfer happens outside this crate;
//! what is verified here is every decision the engine makes: how the
//! destination path is resolved, which parent directory must exist first,
//! and how the running byte count grows against the declared total.

use vstd::prelude::*;
use crate::path::{
    ends_with_sep, file_name, file_name_of, parent_dir, parent_of, spec_join, join_path,
    str_ends_with_sep,
};

verus! {

/// Why a transfer could not even be planned.
#[derive(Debug, PartialEq, Eq, Structural, Clone, Copy)]
pub enum PathError {
    /// The destination denotes a directory, but the source path has no
    /// usable base name to place under it.
    NoFileName,
}

/// Resolve the destination of a transfer: when `dest` denotes a directory
/// (the caller checked) or ends in a separator, the source's base name goes
/// under it; otherwise `dest` itself is the destination.
pub fn resolve_destination(dest: &str, dest_is_dir: bool, source: &str) -> (r: Result<
    String,
    PathError,
>)
    ensures
        !(dest_is_dir || ends_with_sep(dest@)) ==> r is Ok && r->Ok_0@ == dest@,
        (dest_is_dir || ends_with_sep(dest@)) && file_name_of(source@) is Some ==> r is Ok
            && r->Ok_0@ == spec_join(dest@, file_name_of(source@)->0),
        (dest_is_dir || ends_with_sep(dest@)) && file_name_of(source@) is None ==> r is Err
            && r->Err_0 == PathError::NoFileName,
{
    if dest_is_dir || str_ends_with_sep(dest) {
        match file_name(source) {
            Some(base) => Ok(join_path(dest, base.as_str())),
            None => Err(PathError::NoFileName),
        }
    } else {
        Ok(String::from_str(dest))
    }
}

/// The running byte count of one transfer. `transferred` counts the bytes
/// actually moved, and only ever grows; the declared total is what the
/// progress display was told, which size metadata may have understated, so
/// the value handed to the display (`reported`) is capped at the total
/// while the count itself is not.
pub struct TransferProgress {
    pub transferred: u64,
    pub total: u64,
    pub has_total: bool,
}

impl TransferProgress {
    /// The value handed to the progress display: the byte count, capped at
    /// the declared total whenever one is known.
    pub open spec fn reported(self) -> u64 {
        if self.has_total && self.transferred > self.total {
            self.total
        } else {
            self.transferred
        }
    }

    /// A transfer whose total size was declared up front.
    pub fn new_with_total(total: u64) -> (p: TransferProgress)
        ensures
            p.transferred == 0,
            p.has_total,
            p.total == total,
    {
        TransferProgress { transferred: 0, total, has_total: true }
    }

    /// A transfer whose size could not be learned.
    pub fn new_unknown() -> (p: TransferProgress)
        ensures
            p.transferred == 0,
            !p.has_total,
    {
        TransferProgress { transferred: 0, total: 0, has_total: false }
    }

    /// Would recording `n` more bytes keep the count from overflowing?
    pub fn fits(&self, n: u64) -> (b: bool)
        ensures
            b == (self.transferred + n <= u64::MAX),
    {
        n <= u64::MAX - self.transferred
    }

    /// Record one chunk: the count grows by exactly the chunk's length,
    /// whatever the declared total said.
    pub fn record_chunk(&mut self, n: u64)
        requires
            old(self).transferred + n <= u64::MAX,
        ensures
            final(self).transferred == old(self).transferred + n,
            final(self).transferred >= old(self).transferred,
            final(self).total == old(self).total,
            final(self).has_total == old(self).has_total,
    {
        self.transferred = self.transferred + n;
    }

    /// The position reported to the progress display: never past the
    /// declared total when one is known.
    pub fn position(&self) -> (p: u64)
        ensures
            p == self.reported(),
            self.has_total ==> p <= self.total,
            p <= self.transferred,
    {
        if self.has_total && self.transferred > self.total {
            self.total
        } else {
            self.transferred
        }
    }
}

/// Across one transfer's loop the value reported to the progress display
/// never exceeds the declared total when one is known, and never decreases
/// as the byte count grows: `a` and `b` are any earlier and later state of
/// the same transfer.
pub proof fn lemma_reported_bounded_and_monotone(a: TransferProgress, b: TransferProgress)
    requires
        a.has_total == b.has_total,
        a.total == b.total,
        a.transferred <= b.transferred,
    ensures
        a.reported() <= b.reported(),
        b.has_total ==> b.reported() <= b.total,
{
}

/// Everything a transfer needs decided before its copy loop runs: the
/// resolved destination, the directory that must exist first, and a fresh
/// progress record against the declared total.
pub struct TransferPlan {
    pub dest: String,
    pub parent: Option<String>,
    pub progress: TransferProgress,
}

/// Plan a transfer of `source` to `dest`. For an upload the caller passes
/// the local file's size as `Some`; for a download, the remote size if the
/// remote side reported one.
pub fn plan_transfer(source: &str, dest: &str, dest_is_dir: bool, total: Option<u64>) -> (r:
    Result<TransferPlan, PathError>)
    ensures
        r is Err <==> (dest_is_dir || ends_with_sep(dest@)) && file_name_of(source@) is None,
        r is Err ==> r->Err_0 == PathError::NoFileName,
        r is Ok ==> {
            let plan = r->Ok_0;
            &&& !(dest_is_dir || ends_with_sep(dest@)) ==> plan.dest@ == dest@
            &&& (dest_is_dir || ends_with_sep(dest@)) ==> file_name_of(source@) is Some
                && plan.dest@ == spec_join(dest@, file_name_of(source@)->0)
            &&& (match plan.parent {
                Some(p) => parent_of(plan.dest@) == Some(p@),
                None => parent_of(plan.dest@) is None,
            })
            &&& plan.progress.transferred == 0
            &&& (match total {
                Some(t) => plan.progress.has_total && plan.progress.total == t,
                None => !plan.progress.has_total,
            })
        },
{
    let dest_path = match resolve_destination(dest, dest_is_dir, source) {
        Ok(p) => p,
        Err(e) => {
            return Err(e);
        },
    };
    let parent = parent_dir(dest_path.as_str());
    let progress = match total {
        Some(t) => TransferProgress::new_with_total(t),
        None => TransferProgress::new_unknown(),
    };
    Ok(TransferPlan { dest: dest_path, parent, progress })
}

/// The copy loop: move `src` in chunks of at most `chunk_size` bytes,
/// recording each chunk, until a zero-length read ends the loop. The output
/// is byte-for-byte the input and the recorded count is exactly its length,
/// whether or not the declared total said as much.
pub fn copy_chunked(src: &Vec<u8>, chunk_size: usize, progress: &mut TransferProgress) -> (out:
    Vec<u8>)
    requires
        chunk_size >= 1,
        old(progress).transferred == 0,
        src@.len() <= u64::MAX,
    ensures
        out@ == src@,
        final(progress).transferred == src@.len(),
        final(progress).total == old(progress).total,
        final(progress).has_total == old(progress).has_total,
{
    let mut out: Vec<u8> = Vec::new();
    let mut pos: usize = 0;
    proof {
        assert(out@ =~= src@.take(0));
    }
    while pos < src.len()
        invariant
            pos <= src.len(),
            chunk_size >= 1,
            src@.len() <= u64::MAX,
            out@ == src@.take(pos as int),
            progress.transferred == pos as u64,
            progress.total == old(progress).total,
            progress.has_total == old(progress).has_total,
        decreases src.len() - pos,
    {
        let end = if src.len() - pos > chunk_size {
            pos + chunk_size
        } else {
            src.len()
        };
        let mut j = pos;
        while j < end
            invariant
                pos <= j <= end <= src.len(),
                out@ == src@.take(j as int),
            decreases end - j,
        {
            out.push(src[j]);
            proof {
                assert(src@.take(j + 1) =~= src@.take(j as int).push(src@[j as int]));
            }
            j = j + 1;
        }
        progress.record_chunk((end - pos) as u64);
        assert(pos < end);
        pos = end;
    }
    proof {
        assert(src@.take(src@.len() as int) =~= src@);
    }
    out
}

} // verus!
