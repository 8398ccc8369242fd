//! Dispatching the downloads of a run under a limit on how many are in
//! flight at once, and counting how they end.

use crate::api::types::Item;
use crate::http::FetchOutcome;
use crate::progress::{lemma_every_item_counted_once, tally_of, Progress, Tally};
use vstd::prelude::*;
use vstd::string::*;

verus! {

/// The pairs of `items` whose item is available for download, in order.
pub open spec fn ready_of(items: Seq<(Item, String)>) -> Seq<(Item, String)>
    decreases items.len(),
{
    if items.len() == 0 {
        Seq::empty()
    } else if items.last().0.is_available() {
        ready_of(items.drop_last()).push(items.last())
    } else {
        ready_of(items.drop_last())
    }
}

/// The items of `items` that are not available for download, in order.
pub open spec fn unavailable_of(items: Seq<(Item, String)>) -> Seq<Item>
    decreases items.len(),
{
    if items.len() == 0 {
        Seq::empty()
    } else if items.last().0.is_available() {
        unavailable_of(items.drop_last())
    } else {
        unavailable_of(items.drop_last()).push(items.last().0)
    }
}

/// An enumeration split into what is downloaded and what is passed over.
#[derive(Debug, Clone, PartialEq, Eq)]
pub struct Selection {
    /// The items to download, each with its authorization address.
    pub ready: Vec<(Item, String)>,
    /// The items that are not available for download.
    pub unavailable: Vec<Item>,
}

/// Splits an enumeration into the items that are available for download and
/// those that are not. Both parts keep the order of the enumeration.
pub fn select_downloadable(items: Vec<(Item, String)>) -> (s: Selection)
    ensures
        s.ready@ == ready_of(items@),
        s.unavailable@ == unavailable_of(items@),
        s.ready@.len() + s.unavailable@.len() == items@.len(),
{
    let mut ready: Vec<(Item, String)> = Vec::new();
    let mut unavailable: Vec<Item> = Vec::new();
    let mut i: usize = 0;
    while i < items.len()
        invariant
            i <= items.len(),
            ready@ == ready_of(items@.take(i as int)),
            unavailable@ == unavailable_of(items@.take(i as int)),
            ready@.len() + unavailable@.len() == i,
        decreases items.len() - i,
    {
        proof {
            assert(items@.take(i + 1).drop_last() =~= items@.take(i as int));
        }
        if items[i].0.download_available() {
            ready.push((items[i].0.clone(), items[i].1.clone()));
        } else {
            unavailable.push(items[i].0.clone());
        }
        i = i + 1;
    }
    proof {
        assert(items@.take(items.len() as int) =~= items@);
    }
    Selection { ready, unavailable }
}

/// The text of the notice for an item that is passed over.
pub open spec fn notice_text(item: Item) -> Seq<char> {
    "'"@ + item.display_text() + "' has no downloads available."@
}

/// The notice for an item that is passed over because it is not available
/// for download.
pub fn unavailable_notice(item: &Item) -> (s: String)
    ensures
        s@ == notice_text(*item),
{
    let mut s = "'".to_owned();
    s.append(item.display().as_str());
    s.append("' has no downloads available.");
    s
}

/// What the caller of an [`Orchestrator`] is to do next.
#[derive(Debug, Clone, Copy, PartialEq, Eq, Structural)]
pub enum Step {
    /// Start the download of the item at this position. It counts as in
    /// flight from now on.
    Dispatch(usize),
    /// Wait until a download that is in flight has ended, and report it.
    Wait,
    /// Every item has been dispatched and has ended.
    Done,
}

/// The bookkeeping of one run: which item is dispatched next, how many
/// downloads are in flight, and how those that ended have ended.
///
/// Items are dispatched in order. No more downloads are in flight at any
/// time than the limit allows.
pub struct Orchestrator {
    total: usize,
    limit: usize,
    next: usize,
    in_flight: usize,
    progress: Progress,
    ended: Ghost<Seq<Option<FetchOutcome>>>,
}

impl Orchestrator {
    #[verifier::type_invariant]
    spec fn wf(&self) -> bool {
        &&& 0 < self.limit
        &&& self.next <= self.total
        &&& self.in_flight <= self.limit
        &&& self.ended@.len() + self.in_flight == self.next
        &&& self.progress@ == tally_of(self.ended@).capped()
    }

    /// The number of items of the run.
    pub closed spec fn total(&self) -> nat {
        self.total as nat
    }

    /// The most downloads that may be in flight at once.
    pub closed spec fn limit(&self) -> nat {
        self.limit as nat
    }

    /// The number of items dispatched so far.
    pub closed spec fn dispatched(&self) -> nat {
        self.next as nat
    }

    /// The number of downloads that have been dispatched and have not ended.
    pub closed spec fn in_flight(&self) -> nat {
        self.in_flight as nat
    }

    /// How the downloads that ended have ended, in the order in which that
    /// was reported.
    pub closed spec fn ended(&self) -> Seq<Option<FetchOutcome>> {
        self.ended@
    }

    /// What `poll` answers in this state.
    pub open spec fn step(&self) -> Step {
        if self.dispatched() < self.total() && self.in_flight() < self.limit() {
            Step::Dispatch(self.dispatched() as usize)
        } else if self.in_flight() > 0 {
            Step::Wait
        } else {
            Step::Done
        }
    }

    /// The bookkeeping for a run of `total` items of which at most `limit`
    /// are in flight at once.
    pub fn new(total: usize, limit: usize) -> (o: Orchestrator)
        requires
            limit > 0,
        ensures
            o.total() == total,
            o.limit() == limit,
            o.dispatched() == 0,
            o.in_flight() == 0,
            o.ended() == Seq::<Option<FetchOutcome>>::empty(),
    {
        Orchestrator {
            total,
            limit,
            next: 0,
            in_flight: 0,
            progress: Progress::new(),
            ended: Ghost(Seq::empty()),
        }
    }

    /// Says what to do next.
    ///
    /// While items are left and the limit allows, the next item is
    /// dispatched. Otherwise the caller waits for a download to end; when
    /// none is in flight any more, the run is done.
    pub fn poll(&mut self) -> (s: Step)
        ensures
            s == old(self).step(),
            final(self).total() == old(self).total(),
            final(self).limit() == old(self).limit(),
            final(self).ended() == old(self).ended(),
            s is Dispatch ==> s->0 == old(self).dispatched() && final(self).dispatched() == old(
                self,
            ).dispatched() + 1 && final(self).in_flight() == old(self).in_flight() + 1,
            !(s is Dispatch) ==> final(self).dispatched() == old(self).dispatched()
                && final(self).in_flight() == old(self).in_flight(),
            final(self).in_flight() <= final(self).limit(),
            final(self).dispatched() <= final(self).total(),
            final(self).ended().len() + final(self).in_flight() == final(self).dispatched(),
            s is Done ==> final(self).ended().len() == final(self).total(),
    {
        proof {
            use_type_invariant(&*self);
        }
        if self.next < self.total && self.in_flight < self.limit {
            let index = self.next;
            *self = Orchestrator {
                total: self.total,
                limit: self.limit,
                next: index + 1,
                in_flight: self.in_flight + 1,
                progress: self.progress,
                ended: self.ended,
            };
            Step::Dispatch(index)
        } else if self.in_flight > 0 {
            Step::Wait
        } else {
            Step::Done
        }
    }

    /// Reports that a download which was in flight has ended. `None` stands
    /// for one that failed before its outcome could be classified.
    ///
    /// The answer is `false`, and nothing changes, if no download is in
    /// flight.
    pub fn complete(&mut self, outcome: Option<FetchOutcome>) -> (counted: bool)
        ensures
            counted == (old(self).in_flight() > 0),
            final(self).total() == old(self).total(),
            final(self).limit() == old(self).limit(),
            final(self).dispatched() == old(self).dispatched(),
            counted ==> final(self).in_flight() == old(self).in_flight() - 1 && final(self).ended()
                == old(self).ended().push(outcome),
            !counted ==> final(self).in_flight() == old(self).in_flight() && final(self).ended()
                == old(self).ended(),
            final(self).in_flight() <= final(self).limit(),
            final(self).ended().len() + final(self).in_flight() == final(self).dispatched(),
    {
        proof {
            use_type_invariant(&*self);
        }
        if self.in_flight == 0 {
            return false;
        }
        let mut progress = self.progress;
        progress.record(outcome);
        proof {
            let before = self.ended@;
            let after = before.push(outcome);
            assert(after.drop_last() =~= before);
            lemma_every_item_counted_once(before);
            lemma_every_item_counted_once(after);
            assert(tally_of(before).capped().plus(outcome).capped() == tally_of(after).capped());
        }
        *self = Orchestrator {
            total: self.total,
            limit: self.limit,
            next: self.next,
            in_flight: self.in_flight - 1,
            progress,
            ended: Ghost(self.ended@.push(outcome)),
        };
        true
    }

    /// The counters of the run so far: the counts of the downloads that
    /// have ended, each held at `u64::MAX`.
    pub fn progress(&self) -> (p: Progress)
        ensures
            p@ == tally_of(self.ended()).capped(),
            p@.count() == self.ended().len(),
    {
        proof {
            use_type_invariant(self);
            lemma_every_item_counted_once(self.ended@);
        }
        self.progress
    }

    /// The number of downloads in flight.
    pub fn active(&self) -> (n: usize)
        ensures
            n == self.in_flight(),
            n <= self.limit(),
    {
        proof {
            use_type_invariant(self);
        }
        self.in_flight
    }

    /// Whether every item has been dispatched and has ended.
    pub fn is_done(&self) -> (b: bool)
        ensures
            b == (self.step() is Done),
            b ==> self.ended().len() == self.total(),
    {
        proof {
            use_type_invariant(self);
        }
        self.next == self.total && self.in_flight == 0
    }
}

} // verus!
