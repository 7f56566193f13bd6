//! Progress accounting for a streamed download: the declared total, the bytes
//! seen so far, and the percentage reported after each chunk.  The transfer
//! itself happens outside the library; each received chunk's size is handed
//! in, and what is reported back is pinned down here.

use vstd::prelude::*;

verus! {

/// Why a download cannot start or continue.
#[derive(Clone, Copy, Debug, PartialEq, Eq, Structural)]
pub enum Error {
    /// The transfer itself failed.
    RequestFailed,
    /// The response declared no content length, so progress cannot be
    /// accounted.
    NoContentLength,
}

/// One progress report.
#[derive(Clone, Copy, Debug, PartialEq, Eq, Structural)]
pub enum Progress {
    /// The share downloaded so far, in tenths of a percent.
    Downloading { percent_tenths: u64 },
    Finished,
}

/// The share `done` is of `total`, in tenths of a percent: zero while the
/// total is zero, capped at the largest representable value.
pub open spec fn percent_tenths_of(done: u64, total: u64) -> u64 {
    if total == 0 {
        0
    } else if done * 1000 / (total as int) > u64::MAX {
        u64::MAX
    } else {
        (done * 1000 / (total as int)) as u64
    }
}

/// Progress accounting for one download.
#[derive(Clone, Copy, Debug, PartialEq, Eq, Structural)]
pub struct ProgressTracker {
    /// The declared content length, in bytes.
    pub total: u64,
    /// Bytes seen so far.
    pub downloaded: u64,
}

impl ProgressTracker {
    /// Start accounting for a response.  A response without a declared
    /// content length is rejected.
    pub fn start(content_length: Option<u64>) -> (r: Result<ProgressTracker, Error>)
        ensures
            match content_length {
                Some(t) => r == Ok::<ProgressTracker, Error>(
                    ProgressTracker { total: t, downloaded: 0 },
                ),
                None => r == Err::<ProgressTracker, Error>(Error::NoContentLength),
            },
    {
        match content_length {
            Some(t) => Ok(ProgressTracker { total: t, downloaded: 0 }),
            None => Err(Error::NoContentLength),
        }
    }

    /// Account one received chunk and report the new progress.  The byte
    /// count saturates rather than wraps.
    pub fn on_chunk(&mut self, chunk_len: u64) -> (p: Progress)
        ensures
            final(self).total == old(self).total,
            final(self).downloaded as int == (if old(self).downloaded + chunk_len <= u64::MAX {
                old(self).downloaded + chunk_len
            } else {
                u64::MAX as int
            }),
            p == (Progress::Downloading {
                percent_tenths: percent_tenths_of(final(self).downloaded, final(self).total),
            }),
    {
        self.downloaded = if chunk_len <= u64::MAX - self.downloaded {
            self.downloaded + chunk_len
        } else {
            u64::MAX
        };
        Progress::Downloading { percent_tenths: self.percent_tenths() }
    }

    /// The share downloaded so far, in tenths of a percent.
    pub fn percent_tenths(&self) -> (r: u64)
        ensures
            r == percent_tenths_of(self.downloaded, self.total),
    {
        if self.total == 0 {
            0
        } else {
            let q: u128 = (self.downloaded as u128) * 1000 / (self.total as u128);
            if q > u64::MAX as u128 {
                u64::MAX
            } else {
                q as u64
            }
        }
    }
}

} // verus!
