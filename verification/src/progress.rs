//! Download-progress throttling.
//!
//! A download reports every received chunk to a `ProgressTracker`; the
//! tracker decides which of those reports turn into progress notifications,
//! so that observers see a bounded number of events without starving on slow
//! links. Progress is measured in basis points of completion: 10000 means
//! one hundred percent. A notification is due when none was sent yet, when
//! completion advanced by at least half a percent, or when enough time went
//! by since the last one — and only while the total size is known. The final
//! hundred-percent notification is sent unconditionally through `finish`.

use vstd::arithmetic::div_mod::{lemma_div_by_multiple, lemma_div_is_ordered};
use vstd::arithmetic::mul::lemma_mul_inequality;
use vstd::prelude::*;

verus! {

/// Minimum advance, in basis points, that forces a notification.
pub const EMIT_DELTA_BP: u64 = 50;

/// Minimum quiet time, in milliseconds, that forces a notification.
pub const EMIT_DELTA_MS: u64 = 150;

/// Payload of the notification sent once, right before an archive starts to
/// be unpacked.
pub struct ExtractionStart {
    pub download_type: String,
}

/// Completion in basis points: `downloaded * 10000 / total`, meaningful only
/// for `total > 0`.
pub open spec fn progress_bp(downloaded: u64, total: u64) -> int {
    (downloaded * 10000) / (total as int)
}

pub struct ProgressTracker {
    total: u64,
    seen: u64,
    last_emit_ms: u64,
    last_bp: Option<u64>,
    done: bool,
    history: Ghost<Seq<u64>>,
}

impl ProgressTracker {
    /// Every notification issued so far, oldest first, in basis points.
    pub closed spec fn emitted(&self) -> Seq<u64> {
        self.history@
    }

    /// The total size the tracker was created with; 0 when unknown.
    pub closed spec fn total_bytes(&self) -> u64 {
        self.total
    }

    /// The largest byte count reported so far.
    pub closed spec fn seen_bytes(&self) -> u64 {
        self.seen
    }

    /// The last notification issued, if any.
    pub closed spec fn last_emitted(&self) -> Option<u64> {
        self.last_bp
    }

    /// The clock reading at the last notification (at creation, if none yet).
    pub closed spec fn last_emit_at(&self) -> u64 {
        self.last_emit_ms
    }

    /// Whether the final hundred-percent notification went out.
    pub closed spec fn is_done(&self) -> bool {
        self.done
    }

    pub closed spec fn wf(&self) -> bool {
        &&& forall|i: int, j: int|
            0 <= i < j < self.history@.len() ==> self.history@[i] <= self.history@[j]
        &&& forall|i: int| 0 <= i < self.history@.len() ==> self.history@[i] <= 10000
        &&& match self.last_bp {
            Some(b) => self.history@.len() > 0 && self.history@.last() == b,
            None => self.history@.len() == 0,
        }
        &&& (self.done ==> self.history@.len() > 0 && self.history@.last() == 10000)
        &&& (self.total > 0 ==> self.seen <= self.total)
        &&& (match self.last_bp {
            Some(b) => self.total > 0 && !self.done ==> b <= progress_bp(self.seen, self.total),
            None => true,
        })
    }

    /// A notification is due when none was sent yet, completion advanced by
    /// `EMIT_DELTA_BP`, or `EMIT_DELTA_MS` elapsed since the last one.
    pub open spec fn due(&self, now_ms: u64, bp: int) -> bool {
        match self.last_emitted() {
            None => true,
            Some(b) => bp - b >= EMIT_DELTA_BP || now_ms - self.last_emit_at() >= EMIT_DELTA_MS,
        }
    }

    pub fn new(total: u64, now_ms: u64) -> (r: ProgressTracker)
        ensures
            r.wf(),
            r.emitted() == Seq::<u64>::empty(),
            r.total_bytes() == total,
            r.seen_bytes() == 0,
            r.last_emitted() is None,
            r.last_emit_at() == now_ms,
            !r.is_done(),
    {
        ProgressTracker {
            total,
            seen: 0,
            last_emit_ms: now_ms,
            last_bp: None,
            done: false,
            history: Ghost(Seq::empty()),
        }
    }

    /// Records that `downloaded` bytes have arrived by time `now_ms` and
    /// returns the notification to send now, if one is due. Without a known
    /// total no notification is ever due here; `finish` still reports
    /// completion.
    pub fn note_chunk(&mut self, now_ms: u64, downloaded: u64) -> (r: Option<u64>)
        requires
            old(self).wf(),
            !old(self).is_done(),
            downloaded >= old(self).seen_bytes(),
            old(self).total_bytes() > 0 ==> downloaded <= old(self).total_bytes(),
            now_ms >= old(self).last_emit_at(),
        ensures
            final(self).wf(),
            !final(self).is_done(),
            final(self).total_bytes() == old(self).total_bytes(),
            final(self).seen_bytes() == downloaded,
            ({
                let bp = progress_bp(downloaded, old(self).total_bytes());
                if old(self).total_bytes() > 0 && old(self).due(now_ms, bp) {
                    &&& r matches Some(v) && v == bp
                    &&& final(self).emitted() == old(self).emitted().push((bp as u64))
                    &&& final(self).last_emitted() == Some((bp as u64))
                    &&& final(self).last_emit_at() == now_ms
                } else {
                    &&& r is None
                    &&& final(self).emitted() == old(self).emitted()
                    &&& final(self).last_emitted() == old(self).last_emitted()
                    &&& final(self).last_emit_at() == old(self).last_emit_at()
                }
            }),
    {
        if self.total == 0 {
            self.seen = downloaded;
            return None;
        }
        proof {
            lemma_mul_inequality(downloaded as int, self.total as int, 10000);
            lemma_div_is_ordered(
                downloaded as int * 10000,
                self.total as int * 10000,
                self.total as int,
            );
            lemma_div_by_multiple(10000, self.total as int);
            assert(progress_bp(downloaded, self.total) <= 10000);
            lemma_mul_inequality(self.seen as int, downloaded as int, 10000);
            lemma_div_is_ordered(
                self.seen as int * 10000,
                downloaded as int * 10000,
                self.total as int,
            );
            assert(progress_bp(self.seen, self.total) <= progress_bp(downloaded, self.total));
        }
        let bp: u64 = ((downloaded as u128) * 10000 / (self.total as u128)) as u64;
        assert(bp == progress_bp(downloaded, self.total));
        let emit: bool = match self.last_bp {
            None => true,
            Some(b) => bp - b >= EMIT_DELTA_BP || now_ms - self.last_emit_ms >= EMIT_DELTA_MS,
        };
        self.seen = downloaded;
        if emit {
            self.last_bp = Some(bp);
            self.last_emit_ms = now_ms;
            proof {
                self.history@ = self.history@.push(bp);
            }
            Some(bp)
        } else {
            None
        }
    }

    /// Issues the unconditional final notification: exactly one hundred
    /// percent, even when the total size was never known.
    pub fn finish(&mut self) -> (r: u64)
        requires
            old(self).wf(),
        ensures
            final(self).wf(),
            final(self).is_done(),
            r == 10000,
            final(self).emitted() == old(self).emitted().push(10000),
            final(self).total_bytes() == old(self).total_bytes(),
    {
        self.done = true;
        self.last_bp = Some(10000);
        proof {
            self.history@ = self.history@.push(10000);
        }
        10000
    }
}

/// Notifications of one download are monotonically non-decreasing, and once
/// the download wrapped up, the last notification recorded is exactly one
/// hundred percent.
pub proof fn lemma_progress_monotone(t: ProgressTracker)
    requires
        t.wf(),
    ensures
        forall|i: int, j: int| 0 <= i < j < t.emitted().len() ==> t.emitted()[i] <= t.emitted()[j],
        t.is_done() ==> t.emitted().len() > 0 && t.emitted().last() == 10000,
{
}

} // verus!
