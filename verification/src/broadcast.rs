//! Fan-out broadcaster: delivers every published sentence to every
//! registered consumer without coupling consumers to each other or to the
//! publisher.
//!
//! The broadcaster keeps an append-only log of published sentences and one
//! read cursor per consumer. Publishing appends; each consumer drains its
//! own cursor at its own speed, so a slow consumer delays nobody. A
//! consumer registered after some sentences were published starts at the
//! current end of the log: late joiners see no history. Unregistering a
//! consumer is silent to the publisher and to every other consumer.

use vstd::prelude::*;

verus! {

/// One registered consumer: where in the log it started, how far it has
/// read, and whether it is still attached.
#[derive(Debug, Clone, Copy)]
struct Consumer {
    start: usize,
    cursor: usize,
    active: bool,
}

/// Single-producer fan-out to any number of registered consumers, as an
/// append-only sentence log with per-consumer read cursors.
#[derive(Debug)]
pub struct Broadcaster {
    log: Vec<String>,
    consumers: Vec<Consumer>,
}

impl Broadcaster {
    /// Every sentence published so far, in publication order.
    pub closed spec fn log_view(&self) -> Seq<Seq<char>> {
        self.log@.map_values(|s: String| s@)
    }

    /// How many consumers have ever registered; handles are indices below
    /// this count.
    pub closed spec fn consumer_count(&self) -> int {
        self.consumers@.len() as int
    }

    /// The log length at which the consumer registered.
    pub closed spec fn start_of(&self, h: int) -> int {
        self.consumers@[h].start as int
    }

    /// The log position the consumer will read next.
    pub closed spec fn cursor_of(&self, h: int) -> int {
        self.consumers@[h].cursor as int
    }

    /// Whether the consumer is still attached.
    pub closed spec fn is_active(&self, h: int) -> bool {
        self.consumers@[h].active
    }

    /// Every cursor lies between its consumer's registration point and the
    /// end of the log.
    pub open spec fn wf(&self) -> bool {
        forall|h: int|
            0 <= h < self.consumer_count() ==> 0 <= #[trigger] self.start_of(h) <= self.cursor_of(
                h,
            ) <= self.log_view().len()
    }

    /// The sentences the consumer has received so far: the contiguous slice
    /// of the log from its registration point up to its cursor.
    pub open spec fn received(&self, h: int) -> Seq<Seq<char>> {
        self.log_view().subrange(self.start_of(h), self.cursor_of(h))
    }

    /// A fresh broadcaster: nothing published, nobody registered.
    pub fn new() -> (r: Broadcaster)
        ensures
            r.wf(),
            r.log_view() == Seq::<Seq<char>>::empty(),
            r.consumer_count() == 0,
    {
        let r = Broadcaster { log: Vec::new(), consumers: Vec::new() };
        proof {
            assert(r.log_view() =~= Seq::<Seq<char>>::empty());
        }
        r
    }

    /// Attach a new consumer and return its handle. Delivery starts with
    /// the next published sentence: the new consumer's slice of the log
    /// begins at the current end, so it sees no history. Existing consumers
    /// and the log are untouched.
    pub fn register(&mut self) -> (h: usize)
        requires
            old(self).wf(),
        ensures
            final(self).wf(),
            h as int == old(self).consumer_count(),
            final(self).consumer_count() == old(self).consumer_count() + 1,
            final(self).log_view() == old(self).log_view(),
            final(self).is_active(h as int),
            final(self).start_of(h as int) == old(self).log_view().len(),
            final(self).cursor_of(h as int) == old(self).log_view().len(),
            final(self).received(h as int) == Seq::<Seq<char>>::empty(),
            forall|i: int|
                0 <= i < old(self).consumer_count() ==> #[trigger] final(self).start_of(i) == old(self).start_of(i) && final(self).cursor_of(i) == old(self).cursor_of(i) && final(self).is_active(i) == old(self).is_active(i),
    {
        let h = self.consumers.len();
        let at = self.log.len();
        self.consumers.push(Consumer { start: at, cursor: at, active: true });
        proof {
            assert forall|i: int|
                0 <= i < self.consumer_count() implies 0 <= #[trigger] self.start_of(i)
                <= self.cursor_of(i) <= self.log_view().len() by {
                if i < old(self).consumer_count() {
                    assert(self.consumers@[i] == old(self).consumers@[i]);
                    assert(0 <= old(self).start_of(i) <= old(self).cursor_of(i) <= old(self).log_view().len());
                }
            }
            assert forall|i: int| 0 <= i < old(self).consumer_count() implies #[trigger] final(self).start_of(i) == old(self).start_of(i) && final(self).cursor_of(i) == old(self).cursor_of(i) && final(self).is_active(i) == old(self).is_active(i) by {
                assert(self.consumers@[i] == old(self).consumers@[i]);
            }
            assert(self.received(h as int) =~= Seq::<Seq<char>>::empty());
        }
        h
    }

    /// Detach a consumer. Its cursor stops advancing; the log, the
    /// publisher and every other consumer are unaffected.
    pub fn unregister(&mut self, h: usize)
        requires
            old(self).wf(),
            (h as int) < old(self).consumer_count(),
        ensures
            final(self).wf(),
            !final(self).is_active(h as int),
            final(self).consumer_count() == old(self).consumer_count(),
            final(self).log_view() == old(self).log_view(),
            final(self).start_of(h as int) == old(self).start_of(h as int),
            final(self).cursor_of(h as int) == old(self).cursor_of(h as int),
            forall|i: int|
                0 <= i < old(self).consumer_count() && i != h ==> #[trigger] final(self).start_of(
                    i,
                ) == old(self).start_of(i) && final(self).cursor_of(i) == old(self).cursor_of(i)
                    && final(self).is_active(i) == old(self).is_active(i),
    {
        let start = self.consumers[h].start;
        let cursor = self.consumers[h].cursor;
        let slot = vstd::std_specs::vec::vec_index_mut(&mut self.consumers, h);
        *slot = Consumer { start, cursor, active: false };
        proof {
            assert forall|i: int|
                0 <= i < self.consumer_count() implies 0 <= #[trigger] self.start_of(i)
                <= self.cursor_of(i) <= self.log_view().len() by {
                assert(0 <= old(self).start_of(i) <= old(self).cursor_of(i) <= old(self).log_view().len());
                if i != h {
                    assert(self.consumers@[i] == old(self).consumers@[i]);
                }
            }
            assert forall|i: int|
                0 <= i < old(self).consumer_count() && i != h implies #[trigger] final(self).start_of(i) == old(self).start_of(i) && final(self).cursor_of(i) == old(self).cursor_of(i) && final(self).is_active(i) == old(self).is_active(i) by {
                assert(self.consumers@[i] == old(self).consumers@[i]);
            }
        }
    }

    /// Publish one sentence: append it to the log, where every currently
    /// registered consumer — and no one else — will reach it in order.
    /// Nobody's already-received slice changes.
    pub fn publish(&mut self, sentence: String)
        requires
            old(self).wf(),
        ensures
            final(self).wf(),
            final(self).log_view() == old(self).log_view().push(sentence@),
            final(self).consumer_count() == old(self).consumer_count(),
            forall|i: int|
                0 <= i < old(self).consumer_count() ==> #[trigger] final(self).start_of(i) == old(self).start_of(i) && final(self).cursor_of(i) == old(self).cursor_of(i) && final(self).is_active(i) == old(self).is_active(i),
            forall|i: int|
                0 <= i < old(self).consumer_count() ==> #[trigger] final(self).received(i) == old(self).received(i),
    {
        let ghost before = self.log_view();
        self.log.push(sentence);
        proof {
            assert(self.log_view() =~= before.push(sentence@));
            assert forall|i: int|
                0 <= i < self.consumer_count() implies 0 <= #[trigger] self.start_of(i)
                <= self.cursor_of(i) <= self.log_view().len() by {
                assert(self.consumers@[i] == old(self).consumers@[i]);
                assert(0 <= old(self).start_of(i) <= old(self).cursor_of(i) <= old(self).log_view().len());
            }
            assert forall|i: int| 0 <= i < self.consumer_count() implies #[trigger] self.received(
                i,
            ) == old(self).received(i) by {
                assert(self.consumers@[i] == old(self).consumers@[i]);
                assert(0 <= old(self).start_of(i) <= old(self).cursor_of(i) <= old(self).log_view().len());
                assert(self.received(i) =~= old(self).received(i));
            }
        }
    }

    /// Hand the consumer the next sentence it has not yet seen, advancing
    /// its cursor past it, or `None` when it is detached or has drained the
    /// log. The sentence handed out is exactly the log entry at the old
    /// cursor, so each consumer receives the published sequence in order
    /// with nothing skipped.
    pub fn poll(&mut self, h: usize) -> (r: Option<String>)
        requires
            old(self).wf(),
            (h as int) < old(self).consumer_count(),
        ensures
            final(self).wf(),
            final(self).log_view() == old(self).log_view(),
            final(self).consumer_count() == old(self).consumer_count(),
            final(self).start_of(h as int) == old(self).start_of(h as int),
            final(self).is_active(h as int) == old(self).is_active(h as int),
            forall|i: int|
                0 <= i < old(self).consumer_count() && i != h ==> #[trigger] final(self).start_of(
                    i,
                ) == old(self).start_of(i) && final(self).cursor_of(i) == old(self).cursor_of(i)
                    && final(self).is_active(i) == old(self).is_active(i),
            if old(self).is_active(h as int) && old(self).cursor_of(h as int) < old(self).log_view().len() {
                r matches Some(s) && s@ == old(self).log_view()[old(self).cursor_of(h as int)]
                    && final(self).cursor_of(h as int) == old(self).cursor_of(h as int) + 1
                    && final(self).received(h as int) == old(self).received(h as int).push(s@)
            } else {
                r is None && final(self).cursor_of(h as int) == old(self).cursor_of(h as int)
            },
    {
        let active = self.consumers[h].active;
        let cursor = self.consumers[h].cursor;
        let start = self.consumers[h].start;
        if active && cursor < self.log.len() {
            let s = self.log[cursor].clone();
            let slot = vstd::std_specs::vec::vec_index_mut(&mut self.consumers, h);
            *slot = Consumer { start, cursor: cursor + 1, active };
            proof {
                assert forall|i: int|
                    0 <= i < self.consumer_count() implies 0 <= #[trigger] self.start_of(i)
                    <= self.cursor_of(i) <= self.log_view().len() by {
                    assert(0 <= old(self).start_of(i) <= old(self).cursor_of(i) <= old(self).log_view().len());
                    if i != h {
                        assert(self.consumers@[i] == old(self).consumers@[i]);
                    }
                }
                assert forall|i: int|
                    0 <= i < old(self).consumer_count() && i != h implies #[trigger] final(self).start_of(i) == old(self).start_of(i) && final(self).cursor_of(i) == old(self).cursor_of(i) && final(self).is_active(i) == old(self).is_active(i) by {
                    assert(self.consumers@[i] == old(self).consumers@[i]);
                }
                assert(self.received(h as int) =~= old(self).received(h as int).push(s@));
            }
            Some(s)
        } else {
            None
        }
    }
}

/// Fan-out preserves order: any two consumers hold the sentences they have
/// in common in the same relative order, because each consumer's received
/// sequence is a contiguous slice of the one shared log. The sentence a
/// consumer holds at log position `i` is the log entry at `i`, whoever the
/// consumer is.
pub proof fn lemma_fanout_order(b: Broadcaster, h1: int, h2: int, i: int)
    requires
        b.wf(),
        0 <= h1 < b.consumer_count(),
        0 <= h2 < b.consumer_count(),
        b.start_of(h1) <= i < b.cursor_of(h1),
        b.start_of(h2) <= i < b.cursor_of(h2),
    ensures
        b.received(h1)[i - b.start_of(h1)] == b.log_view()[i],
        b.received(h1)[i - b.start_of(h1)] == b.received(h2)[i - b.start_of(h2)],
{
}

} // verus!
