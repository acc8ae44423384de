//! The round-synchronized event broadcaster.
//!
//! A producer task parses input events and makes each one visible to every
//! registered watcher exactly once, in order: one event per round. A watcher
//! and the global round state each carry a parity bit; comparing the two
//! tells whether the watcher has already observed the current round. The
//! producer advances to the next round only once every watcher has polled,
//! and dropping a watcher that the round was waiting on unblocks the
//! producer.
//!
//! The waking of suspended tasks stays with the caller: operations report
//! whether the producer must be woken, and the caller owns the wakers.

use vstd::prelude::*;
use vstd::set_lib::*;
use crate::events::{apply_filters_spec, Event, EventFilter, EventView};

verus! {

/// Relies on the `slab` crate for the watcher-slot arena; the entries of a
/// slab are modeled as a map from each occupied key to its stored value.
#[verifier::external_type_specification]
#[verifier::external_body]
#[verifier::reject_recursive_types(T)]
pub struct ExSlab<T>(slab::Slab<T>);

/// The entries of a watcher-slot slab: each occupied key, with the parity
/// bit stored in its slot.
pub uninterp spec fn slab_entries(s: slab::Slab<bool>) -> Map<usize, bool>;

/// Relies on slab::Slab::new: a new slab has no entries.
#[verifier::external_body]
fn slab_new() -> (fresh: slab::Slab<bool>)
    ensures
        slab_entries(fresh).dom() == Set::<usize>::empty(),
{
    slab::Slab::new()
}

/// Relies on slab::Slab::insert: the value is stored under a previously
/// vacant key, which is returned.
#[verifier::external_body]
fn slab_insert(s: &mut slab::Slab<bool>, val: bool) -> (key: usize)
    ensures
        !slab_entries(*old(s)).dom().contains(key),
        slab_entries(*final(s)) == slab_entries(*old(s)).insert(key, val),
{
    s.insert(val)
}

/// Relies on slab::Slab::remove: the entry under an occupied key is taken
/// out and returned.
#[verifier::external_body]
fn slab_remove(s: &mut slab::Slab<bool>, key: usize) -> (val: bool)
    requires
        slab_entries(*old(s)).dom().contains(key),
    ensures
        val == slab_entries(*old(s))[key],
        slab_entries(*final(s)) == slab_entries(*old(s)).remove(key),
{
    s.remove(key)
}

/// Relies on slab::Slab::get_mut: writing through it replaces the value
/// stored under an occupied key.
#[verifier::external_body]
fn slab_set(s: &mut slab::Slab<bool>, key: usize, val: bool)
    requires
        slab_entries(*old(s)).dom().contains(key),
    ensures
        slab_entries(*final(s)) == slab_entries(*old(s)).insert(key, val),
{
    if let Some(slot) = s.get_mut(key) {
        *slot = val;
    }
}

/// Relies on slab::Slab::len: the number of occupied keys.
#[verifier::external_body]
fn slab_len(s: &slab::Slab<bool>) -> (n: usize)
    requires
        slab_entries(*s).dom().finite(),
    ensures
        n == slab_entries(*s).dom().len(),
{
    s.len()
}

/// The result that a broadcast round holds.
#[derive(Debug, PartialEq, Eq)]
pub enum RoundEvent {
    /// No event has been produced yet this round.
    Pending,
    /// The event of the current round.
    Event(Event),
    /// The input stream has ended.
    End,
}

/// The mathematical model of a [`RoundEvent`].
pub enum RoundEventView {
    Pending,
    Event(EventView),
    End,
}

impl View for RoundEvent {
    type V = RoundEventView;

    open spec fn view(&self) -> RoundEventView {
        match self {
            RoundEvent::Pending => RoundEventView::Pending,
            RoundEvent::Event(e) => RoundEventView::Event(e@),
            RoundEvent::End => RoundEventView::End,
        }
    }
}

/// What one watcher poll came to.
#[derive(Debug, PartialEq, Eq)]
pub enum WatcherPoll {
    /// Nothing to observe this round; poll again after the next wake.
    NotReady,
    /// The current round's event, as this watcher's filters let it through.
    Event(Event),
    /// The input stream has ended.
    End,
}

/// The mathematical model of a [`WatcherPoll`].
pub enum WatcherPollView {
    NotReady,
    Event(EventView),
    End,
}

impl View for WatcherPoll {
    type V = WatcherPollView;

    open spec fn view(&self) -> WatcherPollView {
        match self {
            WatcherPoll::NotReady => WatcherPollView::NotReady,
            WatcherPoll::Event(e) => WatcherPollView::Event(e@),
            WatcherPoll::End => WatcherPollView::End,
        }
    }
}

/// What a watcher observes in a round: nothing while the round is pending,
/// the round's event run through the watcher's own filter stack (which may
/// suppress it), or the end of the stream. The outcome depends only on the
/// round state and the filters — never on which watcher asks.
pub open spec fn round_outcome(cur: RoundEventView, filters: Seq<EventFilter>) -> WatcherPollView {
    match cur {
        RoundEventView::Pending => WatcherPollView::NotReady,
        RoundEventView::End => WatcherPollView::End,
        RoundEventView::Event(ev) => match apply_filters_spec(filters, ev) {
            Option::None => WatcherPollView::NotReady,
            Option::Some(out) => WatcherPollView::Event(out),
        },
    }
}

/// The shared state of the broadcast protocol: the registered watcher
/// slots, how many of them have observed the current round, the round's
/// parity bit, and the round's event.
pub struct GlobalWatcherSet {
    watcher_parities: slab::Slab<bool>,
    num_polled_this_round: usize,
    odd_numbered_round: bool,
    current_event: RoundEvent,
    round_history: Ghost<Seq<RoundEventView>>,
}

/// An independent consumer handle into the broadcast event stream.
///
/// Comparing the watcher's parity bit with the global one tells whether the
/// watcher has already observed the current round.
pub struct EventWatcher {
    odd_numbered_round: bool,
    key: usize,
    observed: Ghost<Seq<RoundEventView>>,
    joined: Ghost<int>,
}

impl GlobalWatcherSet {
    /// The registered watcher slots: each key, with its watcher's parity.
    pub closed spec fn entries(self) -> Map<usize, bool> {
        slab_entries(self.watcher_parities)
    }

    /// The global parity bit of the current round.
    pub closed spec fn parity(self) -> bool {
        self.odd_numbered_round
    }

    /// How many watchers have observed the current round.
    pub closed spec fn polled_count(self) -> int {
        self.num_polled_this_round as int
    }

    /// The current round's event.
    pub closed spec fn current(self) -> RoundEventView {
        self.current_event@
    }

    /// Every round result the producer has published so far, oldest first.
    pub closed spec fn history(self) -> Seq<RoundEventView> {
        self.round_history@
    }

    /// The keys of the watchers that have observed the current round: those
    /// whose parity differs from the global parity.
    pub open spec fn polled_set(self) -> Set<usize> {
        self.entries().dom().filter(|k: usize| self.entries()[k] != self.parity())
    }

    /// The bookkeeping invariant: the slot table is finite, the polled
    /// counter counts exactly the watchers that have observed the round,
    /// and while any watcher has the round left to observe, the round's
    /// result is the most recently published one.
    pub open spec fn wf(self) -> bool {
        &&& self.entries().dom().finite()
        &&& self.polled_count() == self.polled_set().len()
        &&& self.polled_count() < self.entries().dom().len() ==> self.history().len() > 0
            && self.current() == self.history().last()
    }

    /// The watchers that have polled are among the registered watchers.
    pub proof fn lemma_polled_subset(self)
        requires
            self.wf(),
        ensures
            self.polled_set().subset_of(self.entries().dom()),
            self.polled_set().finite(),
            self.polled_set().len() <= self.entries().dom().len(),
    {
        assert(self.polled_set() =~= self.entries().dom().intersect(self.polled_set()));
        self.entries().dom().lemma_len_filter(
            |k: usize| self.entries()[k] != self.parity(),
        );
    }

    /// Create the state of a fresh broadcast: no watchers, an even round,
    /// no event yet.
    pub fn new() -> (g: GlobalWatcherSet)
        ensures
            g.wf(),
            g.entries() == Map::<usize, bool>::empty(),
            g.polled_count() == 0,
            g.parity() == false,
            g.current() == RoundEventView::Pending,
            g.history() == Seq::<RoundEventView>::empty(),
    {
        let g = GlobalWatcherSet {
            watcher_parities: slab_new(),
            num_polled_this_round: 0,
            odd_numbered_round: false,
            current_event: RoundEvent::Pending,
            round_history: Ghost(Seq::empty()),
        };
        proof {
            assert(g.entries() =~= Map::<usize, bool>::empty());
            assert(g.polled_set() =~= Set::<usize>::empty());
        }
        g
    }

    /// Whether every registered watcher has observed the current round, so
    /// that the producer may poll the input and start the next round.
    pub fn all_polled(&self) -> (r: bool)
        requires
            self.wf(),
        ensures
            r == (self.polled_count() == self.entries().dom().len()),
    {
        proof {
            self.lemma_polled_subset();
        }
        let n = slab_len(&self.watcher_parities);
        self.num_polled_this_round == n
    }

    /// Store the result the producer got from the input, flip the round
    /// parity and reset the polled counter: the next round begins, and every
    /// registered watcher becomes eligible to observe it.
    ///
    /// The producer may publish only a round everyone has observed.
    pub fn publish(&mut self, outcome: RoundEvent)
        requires
            old(self).wf(),
            old(self).polled_count() == old(self).entries().dom().len(),
        ensures
            final(self).wf(),
            final(self).entries() == old(self).entries(),
            final(self).parity() == !old(self).parity(),
            final(self).polled_count() == 0,
            final(self).current() == outcome@,
            final(self).polled_set() =~= Set::<usize>::empty(),
            final(self).history() == old(self).history().push(outcome@),
    {
        proof {
            old(self).lemma_polled_subset();
            vstd::set_lib::lemma_len_subset(
                old(self).polled_set(),
                old(self).entries().dom(),
            );
        }
        self.num_polled_this_round = 0;
        self.odd_numbered_round = !self.odd_numbered_round;
        let ghost appended = self.round_history@.push(outcome@);
        self.round_history = Ghost(appended);
        self.current_event = outcome;
        proof {
            // everyone had polled, so under the flipped parity nobody has
            assert forall|k: usize|
                old(self).entries().dom().contains(k) implies old(self).polled_set().contains(
                k,
            ) by {
                if !old(self).polled_set().contains(k) {
                    assert(old(self).polled_set().subset_of(
                        old(self).entries().dom().remove(k),
                    ));
                    vstd::set_lib::lemma_len_subset(
                        old(self).polled_set(),
                        old(self).entries().dom().remove(k),
                    );
                }
            }
            assert(old(self).polled_set() =~= old(self).entries().dom());
            assert forall|k: usize| !self.polled_set().contains(k) by {
                if self.entries().dom().contains(k) {
                    assert(old(self).polled_set().contains(k));
                }
            }
            assert(self.polled_set() =~= Set::<usize>::empty());
        }
    }

    /// Note that the input had nothing ready: the round's result returns to
    /// pending, with no other change. The producer looks at the input only
    /// between rounds, once everyone has observed the last one.
    pub fn note_input_pending(&mut self)
        requires
            old(self).wf(),
            old(self).polled_count() == old(self).entries().dom().len(),
        ensures
            final(self).history() == old(self).history(),
            final(self).wf(),
            final(self).entries() == old(self).entries(),
            final(self).parity() == old(self).parity(),
            final(self).polled_count() == old(self).polled_count(),
            final(self).current() == RoundEventView::Pending,
    {
        self.current_event = RoundEvent::Pending;
        proof {
            assert(self.polled_set() =~= old(self).polled_set());
        }
    }
}

impl EventWatcher {
    /// The watcher's slot key.
    pub closed spec fn spec_key(self) -> usize {
        self.key
    }

    /// The watcher's parity bit.
    pub closed spec fn spec_parity(self) -> bool {
        self.odd_numbered_round
    }

    /// Every round result this watcher has observed, oldest first (before
    /// its own filters are applied).
    pub closed spec fn observed(self) -> Seq<RoundEventView> {
        self.observed@
    }

    /// How many rounds had been published when the watcher registered.
    pub closed spec fn joined(self) -> int {
        self.joined@
    }

    /// The watcher's record agrees with the published history: it has
    /// observed exactly the rounds published since it joined — all of them
    /// once it has observed the current round, all but the current one
    /// before that. This is the broadcast guarantee: every watcher observes
    /// every round it was registered for, exactly once, in publish order.
    pub open spec fn in_sync(self, g: GlobalWatcherSet) -> bool {
        &&& 0 <= self.joined() <= g.history().len()
        &&& self.has_polled(g) ==> self.observed() == g.history().skip(self.joined())
        &&& !self.has_polled(g) ==> g.history().len() > self.joined() && self.observed()
            == g.history().skip(self.joined()).drop_last()
    }

    /// The watcher is registered in `g` and its slot mirrors its parity.
    pub open spec fn valid_for(self, g: GlobalWatcherSet) -> bool {
        &&& g.entries().dom().contains(self.spec_key())
        &&& g.entries()[self.spec_key()] == self.spec_parity()
    }

    /// Whether the watcher has already observed the current round of `g`.
    pub open spec fn has_polled(self, g: GlobalWatcherSet) -> bool {
        self.spec_parity() != g.parity()
    }

    /// Register a new watcher.
    ///
    /// The watcher is credited as having already observed the current round,
    /// so it neither blocks the round it never saw start nor consumes an
    /// event produced before it existed: it observes every event from the
    /// next round on.
    pub fn new(g: &mut GlobalWatcherSet) -> (w: EventWatcher)
        requires
            old(g).wf(),
        ensures
            final(g).wf(),
            w.valid_for(*final(g)),
            w.has_polled(*final(g)),
            w.in_sync(*final(g)),
            w.joined() == old(g).history().len(),
            w.observed() == Seq::<RoundEventView>::empty(),
            !old(g).entries().dom().contains(w.spec_key()),
            final(g).entries() == old(g).entries().insert(w.spec_key(), !old(g).parity()),
            final(g).parity() == old(g).parity(),
            final(g).current() == old(g).current(),
            final(g).history() == old(g).history(),
            final(g).polled_count() == old(g).polled_count() + 1,
    {
        proof {
            old(g).lemma_polled_subset();
        }
        let parity = !g.odd_numbered_round;
        let key = slab_insert(&mut g.watcher_parities, parity);
        let ghost before = *old(g);
        proof {
            assert(g.polled_set() =~= before.polled_set().insert(key));
        }
        let n = slab_len(&g.watcher_parities);
        proof {
            assert(g.polled_set().subset_of(g.entries().dom()));
            vstd::set_lib::lemma_len_subset(g.polled_set(), g.entries().dom());
        }
        g.num_polled_this_round = g.num_polled_this_round + 1;
        proof {
            assert(g.polled_set() =~= before.polled_set().insert(key));
            assert(Seq::<RoundEventView>::empty() =~= g.round_history@.skip(
                g.round_history@.len() as int,
            ));
        }
        EventWatcher {
            odd_numbered_round: parity,
            key,
            observed: Ghost(Seq::empty()),
            joined: Ghost(g.round_history@.len() as int),
        }
    }

    /// Observe the current round.
    ///
    /// A watcher that has already observed the round reports not-ready and
    /// changes nothing. Otherwise the watcher is marked as having observed
    /// the round and receives the round's outcome — which depends only on
    /// the round state and the watcher's filters, so every watcher of a
    /// round observes the same event. The second component reports whether
    /// this poll made the round unanimous, in which case the round's result
    /// is reset and the producer must be woken.
    pub fn poll_next(&mut self, g: &mut GlobalWatcherSet, filters: &Vec<EventFilter>) -> (r: (
        WatcherPoll,
        bool,
    ))
        requires
            old(g).wf(),
            old(self).valid_for(*old(g)),
            old(self).in_sync(*old(g)),
        ensures
            final(g).wf(),
            final(self).valid_for(*final(g)),
            final(self).in_sync(*final(g)),
            final(g).history() == old(g).history(),
            old(self).has_polled(*old(g)) ==> {
                &&& r.0@ == WatcherPollView::NotReady
                &&& r.1 == false
                &&& *final(g) == *old(g)
                &&& *final(self) == *old(self)
            },
            !old(self).has_polled(*old(g)) ==> {
                &&& r.0@ == round_outcome(old(g).current(), filters@)
                &&& final(self).has_polled(*final(g))
                &&& final(self).spec_key() == old(self).spec_key()
                // the watcher has now observed every round published since
                // it joined, in publish order
                &&& final(self).observed() == old(g).history().skip(old(self).joined())
                &&& final(self).observed() == old(self).observed().push(old(g).current())
                &&& final(g).entries() == old(g).entries().insert(
                    old(self).spec_key(),
                    !old(self).spec_parity(),
                )
                &&& final(g).parity() == old(g).parity()
                &&& final(g).polled_count() == old(g).polled_count() + 1
                &&& r.1 == (final(g).polled_count() == final(g).entries().dom().len())
                &&& final(g).current() == (if r.1 {
                    RoundEventView::Pending
                } else {
                    old(g).current()
                })
            },
    {
        if self.odd_numbered_round != g.odd_numbered_round {
            // already observed this round
            return (WatcherPoll::NotReady, false);
        }
        proof {
            old(g).lemma_polled_subset();
            // an unpolled watcher exists, so the round still waits on it and
            // its result is the most recently published one
            assert(old(g).polled_set().subset_of(
                old(g).entries().dom().remove(self.key),
            ));
            vstd::set_lib::lemma_len_subset(
                old(g).polled_set(),
                old(g).entries().dom().remove(self.key),
            );
        }
        let ghost before = *old(g);
        let ghost cur = g.current_event@;
        proof {
            self.observed@ = self.observed@.push(cur);
        }
        self.odd_numbered_round = !self.odd_numbered_round;
        slab_set(&mut g.watcher_parities, self.key, self.odd_numbered_round);
        let n = slab_len(&g.watcher_parities);
        proof {
            assert(g.entries().dom() =~= before.entries().dom());
            assert(g.polled_set() =~= before.polled_set().insert(self.key));
            assert(g.polled_set().subset_of(g.entries().dom()));
            vstd::set_lib::lemma_len_subset(g.polled_set(), g.entries().dom());
        }
        g.num_polled_this_round = g.num_polled_this_round + 1;
        let ret = match &g.current_event {
            RoundEvent::Pending => WatcherPoll::NotReady,
            RoundEvent::End => WatcherPoll::End,
            RoundEvent::Event(ev) => {
                match crate::events::apply_filters(filters, ev) {
                    None => WatcherPoll::NotReady,
                    Some(out) => WatcherPoll::Event(out),
                }
            },
        };
        let wake = g.num_polled_this_round == n;
        if wake {
            g.current_event = RoundEvent::Pending;
        }
        proof {
            assert(g.polled_set() =~= before.polled_set().insert(self.key));
            assert(before.history().skip(self.joined@).drop_last().push(cur)
                =~= before.history().skip(self.joined@));
        }
        (ret, wake)
    }

    /// Publishing a new round keeps a watcher's record in step: a watcher
    /// that had observed every published round now has exactly the new
    /// round left to observe.
    pub proof fn lemma_in_sync_after_publish(
        self,
        g0: GlobalWatcherSet,
        g1: GlobalWatcherSet,
        outcome: RoundEventView,
    )
        requires
            self.in_sync(g0),
            self.has_polled(g0),
            g1.parity() == !g0.parity(),
            g1.history() == g0.history().push(outcome),
        ensures
            self.in_sync(g1),
            !self.has_polled(g1),
    {
        assert(g1.history().skip(self.joined()).drop_last() =~= g0.history().skip(
            self.joined(),
        ));
    }

    /// Drop the watcher: remove its slot from the round's bookkeeping.
    ///
    /// A watcher that had observed the current round gives its count back;
    /// one that had not observed it may have been the only slot the round
    /// was still waiting on — in that case the round's result is reset and
    /// the producer must be woken, which the returned flag reports. In
    /// particular, if every other watcher has observed the round, dropping
    /// a watcher that has not unblocks the producer.
    pub fn drop_watcher(self, g: &mut GlobalWatcherSet) -> (wake: bool)
        requires
            old(g).wf(),
            self.valid_for(*old(g)),
        ensures
            final(g).wf(),
            final(g).entries() == old(g).entries().remove(self.spec_key()),
            final(g).parity() == old(g).parity(),
            final(g).history() == old(g).history(),
            self.has_polled(*old(g)) ==> {
                &&& final(g).polled_count() == old(g).polled_count() - 1
                &&& final(g).current() == old(g).current()
                &&& wake == false
            },
            !self.has_polled(*old(g)) ==> {
                &&& final(g).polled_count() == old(g).polled_count()
                &&& wake == (final(g).polled_count() == final(g).entries().dom().len())
                &&& final(g).current() == (if wake {
                    RoundEventView::Pending
                } else {
                    old(g).current()
                })
            },
            !self.has_polled(*old(g)) && old(g).polled_count() == old(g).entries().dom().len() - 1
                ==> wake == true,
    {
        proof {
            old(g).lemma_polled_subset();
        }
        let ghost before = *old(g);
        let _parity = slab_remove(&mut g.watcher_parities, self.key);
        proof {
            if self.has_polled(before) {
                assert(g.polled_set() =~= before.polled_set().remove(self.key));
            } else {
                assert(g.polled_set() =~= before.polled_set());
            }
        }
        if self.odd_numbered_round != g.odd_numbered_round {
            // we had observed the round: give the count back
            g.num_polled_this_round = g.num_polled_this_round - 1;
            proof {
                assert(g.polled_set() =~= before.polled_set().remove(self.key));
            }
            false
        } else {
            let n = slab_len(&g.watcher_parities);
            let wake = g.num_polled_this_round == n;
            if wake {
                g.current_event = RoundEvent::Pending;
            }
            proof {
                assert(g.polled_set() =~= before.polled_set());
            }
            wake
        }
    }
}

} // verus!
