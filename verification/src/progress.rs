//! Counting the outcomes of a run.

use crate::http::FetchOutcome;
use crate::text::{decimal, push_decimal};
use vstd::prelude::*;
use vstd::string::*;

verus! {

/// The counts of a run as unbounded numbers.
pub struct Tally {
    /// Files that were written for the first time.
    pub downloaded: nat,
    /// Files that were already in place.
    pub skipped: nat,
    /// Files that were replaced.
    pub redownloaded: nat,
    /// Items that ended without a file in place.
    pub errors: nat,
    /// Bytes written, over all files.
    pub bytes: nat,
}

impl Tally {
    /// The counts before anything has happened.
    pub open spec fn zero() -> Tally {
        Tally { downloaded: 0, skipped: 0, redownloaded: 0, errors: 0, bytes: 0 }
    }

    /// The counts after one more item has ended. `None` stands for an item
    /// that failed before its outcome could be classified. Exactly one of
    /// the four counters goes up by one.
    pub open spec fn plus(self, event: Option<FetchOutcome>) -> Tally {
        match event {
            Some(FetchOutcome::Downloaded(n)) => Tally {
                downloaded: self.downloaded + 1,
                bytes: self.bytes + n as nat,
                ..self
            },
            Some(FetchOutcome::SkippedIdentical) => Tally { skipped: self.skipped + 1, ..self },
            Some(FetchOutcome::Redownloaded(n)) => Tally {
                redownloaded: self.redownloaded + 1,
                bytes: self.bytes + n as nat,
                ..self
            },
            _ => Tally { errors: self.errors + 1, ..self },
        }
    }

    /// The counts of two runs taken together.
    pub open spec fn merged(self, other: Tally) -> Tally {
        Tally {
            downloaded: self.downloaded + other.downloaded,
            skipped: self.skipped + other.skipped,
            redownloaded: self.redownloaded + other.redownloaded,
            errors: self.errors + other.errors,
            bytes: self.bytes + other.bytes,
        }
    }

    /// The number of items counted.
    pub open spec fn count(self) -> nat {
        self.downloaded + self.skipped + self.redownloaded + self.errors
    }

    /// Whether every count fits a 64-bit counter.
    pub open spec fn fits(self) -> bool {
        &&& self.downloaded <= u64::MAX
        &&& self.skipped <= u64::MAX
        &&& self.redownloaded <= u64::MAX
        &&& self.errors <= u64::MAX
        &&& self.bytes <= u64::MAX
    }

    /// The counts with each held at `u64::MAX`.
    pub open spec fn capped(self) -> Tally {
        Tally {
            downloaded: cap(self.downloaded),
            skipped: cap(self.skipped),
            redownloaded: cap(self.redownloaded),
            errors: cap(self.errors),
            bytes: cap(self.bytes),
        }
    }
}

/// `n`, held at `u64::MAX`.
pub open spec fn cap(n: nat) -> nat {
    if n > u64::MAX {
        u64::MAX as nat
    } else {
        n
    }
}

/// The counts after the given items have ended, in any order.
pub open spec fn tally_of(events: Seq<Option<FetchOutcome>>) -> Tally
    decreases events.len(),
{
    if events.len() == 0 {
        Tally::zero()
    } else {
        tally_of(events.drop_last()).plus(events.last())
    }
}

/// The counters of one run. Each saturates at `u64::MAX`.
#[derive(Debug, Clone, Copy, PartialEq, Eq, Structural)]
pub struct Progress {
    downloaded: u64,
    skipped: u64,
    redownloaded: u64,
    errors: u64,
    bytes: u64,
}

impl Progress {
    /// The counters as unbounded numbers.
    pub closed spec fn view(&self) -> Tally {
        Tally {
            downloaded: self.downloaded as nat,
            skipped: self.skipped as nat,
            redownloaded: self.redownloaded as nat,
            errors: self.errors as nat,
            bytes: self.bytes as nat,
        }
    }

    /// Counters that stand at zero.
    pub fn new() -> (p: Progress)
        ensures
            p@ == Tally::zero(),
    {
        Progress { downloaded: 0, skipped: 0, redownloaded: 0, errors: 0, bytes: 0 }
    }

    /// Counts one item that has ended. `None` stands for an item that failed
    /// before its outcome could be classified.
    pub fn record(&mut self, event: Option<FetchOutcome>)
        ensures
            final(self)@ == old(self)@.plus(event).capped(),
    {
        match event {
            Some(FetchOutcome::Downloaded(n)) => {
                self.downloaded = self.downloaded.saturating_add(1);
                self.bytes = self.bytes.saturating_add(n);
            },
            Some(FetchOutcome::SkippedIdentical) => {
                self.skipped = self.skipped.saturating_add(1);
            },
            Some(FetchOutcome::Redownloaded(n)) => {
                self.redownloaded = self.redownloaded.saturating_add(1);
                self.bytes = self.bytes.saturating_add(n);
            },
            _ => {
                self.errors = self.errors.saturating_add(1);
            },
        }
    }

    /// The number of files written for the first time.
    pub fn downloaded(&self) -> (n: u64)
        ensures
            n == self@.downloaded,
    {
        self.downloaded
    }

    /// The number of files that were already in place.
    pub fn skipped(&self) -> (n: u64)
        ensures
            n == self@.skipped,
    {
        self.skipped
    }

    /// The number of files that were replaced.
    pub fn redownloaded(&self) -> (n: u64)
        ensures
            n == self@.redownloaded,
    {
        self.redownloaded
    }

    /// The number of items that ended without a file in place.
    pub fn errors(&self) -> (n: u64)
        ensures
            n == self@.errors,
    {
        self.errors
    }

    /// The number of bytes written.
    pub fn bytes(&self) -> (n: u64)
        ensures
            n == self@.bytes,
    {
        self.bytes
    }

    /// The number of items counted, held at `u64::MAX`.
    pub fn completed(&self) -> (n: u64)
        ensures
            n == cap(self@.count()),
    {
        self.downloaded.saturating_add(self.skipped).saturating_add(
            self.redownloaded,
        ).saturating_add(self.errors)
    }

    /// The text of the line that shows the counters.
    pub open spec fn line_text(t: Tally) -> Seq<char> {
        "downloaded: "@ + decimal(t.downloaded) + ", skipped: "@ + decimal(t.skipped)
            + ", redownloaded: "@ + decimal(t.redownloaded) + ", errors: "@ + decimal(t.errors)
            + ", bytes: "@ + decimal(t.bytes)
    }

    /// The line that shows the counters.
    pub fn display_line(&self) -> (s: String)
        ensures
            s@ == Self::line_text(self@),
    {
        let mut s = "downloaded: ".to_owned();
        push_decimal(&mut s, self.downloaded);
        s.append(", skipped: ");
        push_decimal(&mut s, self.skipped);
        s.append(", redownloaded: ");
        push_decimal(&mut s, self.redownloaded);
        s.append(", errors: ");
        push_decimal(&mut s, self.errors);
        s.append(", bytes: ");
        push_decimal(&mut s, self.bytes);
        s
    }
}

/// Every item that ends is counted exactly once: the four counters together
/// come to the number of items.
pub proof fn lemma_every_item_counted_once(events: Seq<Option<FetchOutcome>>)
    ensures
        tally_of(events).count() == events.len(),
    decreases events.len(),
{
    if events.len() > 0 {
        lemma_every_item_counted_once(events.drop_last());
    }
}

/// The counts of a run that is split in two are the counts of the parts
/// taken together.
pub proof fn lemma_tally_of_concat(a: Seq<Option<FetchOutcome>>, b: Seq<Option<FetchOutcome>>)
    ensures
        tally_of(a + b) == tally_of(a).merged(tally_of(b)),
    decreases b.len(),
{
    if b.len() == 0 {
        assert(a + b =~= a);
    } else {
        lemma_tally_of_concat(a, b.drop_last());
        assert((a + b).drop_last() =~= a + b.drop_last());
        assert((a + b).last() == b.last());
    }
}

/// Taking one item out of a run takes out what it added.
proof fn lemma_tally_of_remove(events: Seq<Option<FetchOutcome>>, i: int)
    requires
        0 <= i < events.len(),
    ensures
        tally_of(events) == tally_of(events.remove(i)).plus(events[i]),
    decreases events.len(),
{
    if i == events.len() - 1 {
        assert(events.remove(i) =~= events.drop_last());
    } else {
        lemma_tally_of_remove(events.drop_last(), i);
        assert(events.remove(i).drop_last() =~= events.drop_last().remove(i));
        assert(events.remove(i).last() == events.last());
    }
}

/// The counts do not depend on the order in which the items end: two runs
/// with the same outcomes, each as often in one as in the other, count alike.
pub proof fn lemma_tally_order_independent(
    a: Seq<Option<FetchOutcome>>,
    b: Seq<Option<FetchOutcome>>,
)
    requires
        a.to_multiset() == b.to_multiset(),
    ensures
        tally_of(a) == tally_of(b),
    decreases a.len(),
{
    a.to_multiset_ensures();
    b.to_multiset_ensures();
    if a.len() == 0 {
        assert(b.len() == 0);
    } else {
        let last = a.last();
        assert(a.to_multiset().count(last) > 0) by {
            assert(a.contains(last));
        }
        assert(b.contains(last));
        let i = choose|i: int| 0 <= i < b.len() && b[i] == last;
        let a1 = a.drop_last();
        let b1 = b.remove(i);
        assert(a1.to_multiset() =~= b1.to_multiset()) by {
            assert(a1 =~= a.remove(a.len() - 1));
            vstd::seq_lib::to_multiset_remove(a, a.len() - 1);
            vstd::seq_lib::to_multiset_remove(b, i);
        }
        lemma_tally_order_independent(a1, b1);
        lemma_tally_of_remove(b, i);
    }
}

/// A run in which every file was already in place writes no byte.
pub proof fn lemma_all_skipped_writes_nothing(events: Seq<Option<FetchOutcome>>)
    requires
        forall|i: int|
            0 <= i < events.len() ==> #[trigger] events[i] == Some(FetchOutcome::SkippedIdentical),
    ensures
        tally_of(events).bytes == 0,
        tally_of(events).skipped == events.len(),
        tally_of(events).downloaded == 0,
        tally_of(events).redownloaded == 0,
        tally_of(events).errors == 0,
    decreases events.len(),
{
    if events.len() > 0 {
        lemma_all_skipped_writes_nothing(events.drop_last());
    }
}

} // verus!
