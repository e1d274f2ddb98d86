//! The per-session broker: fan-out of serialized events to any number of
//! subscribers with bounded retention, the retained initial event every new
//! subscriber gets first, and the ordered queue of inbound client ops that
//! the op consumer drains.
//!
//! The broker keeps only the most recent `cap` events; its contract speaks
//! over the full history of published events. A subscriber is a cursor into
//! that history: receiving yields the events in publication order, and a
//! subscriber that fell more than `cap` events behind observes a gap (how
//! many events it missed) rather than slowing the producer down.

use vstd::prelude::*;
use crate::json::vecs_view;
use crate::ops::ClientMsg;
use crate::ops::ClientMsgS;
use crate::ops::RuntimeOp;
use crate::ops::translate;
use crate::ops::translate_spec;

verus! {

/// The per-session broker of the registry: event fan-out, retained initial
/// event, and the op queue.
pub struct SessionEntry {
    /// The most recent events, oldest first.
    buf: Vec<Vec<u8>>,
    /// Retention bound of the fan-out.
    cap: usize,
    /// Events ever published.
    total: usize,
    /// The full history of published events.
    hist: Ghost<Seq<Seq<u8>>>,
    /// The retained, pre-serialized initial event, sent to every new
    /// subscriber before any live event.
    pub initial_event_json: Option<Vec<u8>>,
    /// Queued client ops, oldest first.
    ops: Vec<ClientMsg>,
}

/// One subscriber's position in a broker's event history.
pub struct Subscriber {
    cursor: usize,
}

/// What one receive attempt yields: the next event, a gap of `missed`
/// events for a subscriber that fell behind, or nothing yet.
#[derive(Debug, PartialEq, Eq)]
pub enum RecvOutcome {
    Event(Vec<u8>),
    Lagged(usize),
    Empty,
}

impl Subscriber {
    /// The position in the history this subscriber will read next.
    pub closed spec fn cursor(self) -> int {
        self.cursor as int
    }
}

/// The fan-out capacity a session is built with.
pub fn default_broadcast_capacity() -> (r: usize)
    ensures
        r == 1024,
{
    1024
}

impl SessionEntry {
    /// The full history of published events, oldest first.
    pub closed spec fn hist(self) -> Seq<Seq<u8>> {
        self.hist@
    }

    /// The queued client ops, oldest first.
    pub closed spec fn ops_view(self) -> Seq<ClientMsgS> {
        self.ops@.map_values(|m: ClientMsg| m@)
    }

    /// The retention bound.
    pub closed spec fn cap(self) -> int {
        self.cap as int
    }

    /// The retained buffer holds exactly the most recent `cap` events of
    /// the history.
    pub closed spec fn wf(self) -> bool {
        &&& self.cap >= 1
        &&& self.total as int == self.hist@.len()
        &&& self.buf@.len() == if self.total as int <= self.cap as int {
            self.total as int
        } else {
            self.cap as int
        }
        &&& forall|i: int|
            0 <= i < self.buf@.len() ==> #[trigger] self.buf@[i]@ == self.hist@[self.hist@.len()
                - self.buf@.len() + i]
    }

    /// The retained initial event's bytes, if one was given.
    pub closed spec fn initial(self) -> Option<Seq<u8>> {
        match self.initial_event_json {
            Some(j) => Some(j@),
            None => None,
        }
    }

    /// A cursor that still points into this broker's history.
    pub closed spec fn valid_sub(self, s: Subscriber) -> bool {
        0 <= s.cursor() <= self.hist@.len()
    }

    /// Builds a broker with the given retained initial event and retention
    /// bound. Its history starts empty: the initial event is not part of
    /// the live stream, it is handed to each subscriber on attach.
    pub fn new(initial_event_json: Option<Vec<u8>>, cap: usize) -> (r: SessionEntry)
        requires
            cap >= 1,
        ensures
            r.wf(),
            r.hist() == Seq::<Seq<u8>>::empty(),
            r.ops_view() == Seq::<ClientMsgS>::empty(),
            r.cap() == cap,
            r.initial() == (match initial_event_json {
                Some(j) => Some(j@),
                None => None::<Seq<u8>>,
            }),
    {
        let r = SessionEntry {
            buf: Vec::new(),
            cap,
            total: 0,
            hist: Ghost(Seq::empty()),
            initial_event_json,
            ops: Vec::new(),
        };
        proof {
            assert(r.ops_view() =~= Seq::<ClientMsgS>::empty());
        }
        r
    }

    /// Publishes one serialized event: the history grows by it, whatever
    /// the number of subscribers; publishing never fails and never blocks.
    /// Only the oldest retained event is evicted when the buffer is full.
    pub fn publish(&mut self, ev: Vec<u8>)
        requires
            old(self).wf(),
            old(self).hist().len() < usize::MAX,
        ensures
            final(self).wf(),
            final(self).hist() == old(self).hist().push(ev@),
            final(self).cap() == old(self).cap(),
            final(self).ops_view() == old(self).ops_view(),
            final(self).initial() == old(self).initial(),
    {
        if self.buf.len() == self.cap {
            self.buf.remove(0);
        }
        self.buf.push(ev);
        proof {
            self.hist@ = self.hist@.push(self.buf@[self.buf@.len() - 1]@);
        }
        self.total = self.total + 1;
    }

    /// Attaches a new subscriber: it gets a copy of the retained initial
    /// event to deliver first, and a cursor at the end of the history, so
    /// it will observe exactly the events published after it attached.
    pub fn subscribe(&self) -> (r: (Option<Vec<u8>>, Subscriber))
        requires
            self.wf(),
        ensures
            self.valid_sub(r.1),
            r.1.cursor() == self.hist().len(),
            match r.0 {
                Some(j) => self.initial() == Some(j@),
                None => self.initial() is None,
            },
    {
        let init = match &self.initial_event_json {
            Some(j) => Some(vstd::slice::slice_to_vec(j.as_slice())),
            None => None,
        };
        (init, Subscriber { cursor: self.total })
    }

    /// One receive attempt. In publication order: the subscriber gets the
    /// event at its cursor; a subscriber more than `cap` behind gets the
    /// count of events it missed and is moved to the oldest retained
    /// event; a subscriber at the end gets nothing. The broker itself is
    /// never affected.
    pub fn recv(&self, s: &mut Subscriber) -> (r: RecvOutcome)
        requires
            self.wf(),
            self.valid_sub(*old(s)),
        ensures
            self.valid_sub(*final(s)),
            match r {
                RecvOutcome::Event(ev) => {
                    &&& old(s).cursor() < self.hist().len()
                    &&& self.hist().len() - old(s).cursor() <= self.cap()
                    &&& ev@ == self.hist()[old(s).cursor()]
                    &&& final(s).cursor() == old(s).cursor() + 1
                },
                RecvOutcome::Lagged(missed) => {
                    &&& self.hist().len() - old(s).cursor() > self.cap()
                    &&& missed as int == self.hist().len() - self.cap() - old(s).cursor()
                    &&& final(s).cursor() == self.hist().len() - self.cap()
                },
                RecvOutcome::Empty => {
                    &&& old(s).cursor() == self.hist().len()
                    &&& final(s).cursor() == old(s).cursor()
                },
            },
    {
        if s.cursor == self.total {
            RecvOutcome::Empty
        } else if self.total - s.cursor > self.cap {
            let missed = self.total - self.cap - s.cursor;
            s.cursor = self.total - self.cap;
            RecvOutcome::Lagged(missed)
        } else {
            let idx = self.buf.len() - (self.total - s.cursor);
            let ev = vstd::slice::slice_to_vec(self.buf[idx].as_slice());
            proof {
                assert(self.buf@[idx as int]@ == self.hist@[s.cursor as int]);
            }
            s.cursor = s.cursor + 1;
            RecvOutcome::Event(ev)
        }
    }

    /// Queues one client op; any number of connections may push, and order
    /// within one pusher is kept.
    pub fn push_op(&mut self, op: ClientMsg)
        requires
            old(self).wf(),
        ensures
            final(self).wf(),
            final(self).ops_view() == old(self).ops_view().push(op@),
            final(self).hist() == old(self).hist(),
            final(self).cap() == old(self).cap(),
            final(self).initial() == old(self).initial(),
    {
        let ghost prev = self.ops@;
        self.ops.push(op);
        proof {
            assert(self.ops_view() =~= prev.map_values(|m: ClientMsg| m@).push(self.ops@[
                self.ops@.len() - 1
            ]@));
        }
    }

    /// Dequeues the oldest client op, if any: the consumer side of the op
    /// queue.
    pub fn pop_op(&mut self) -> (r: Option<ClientMsg>)
        requires
            old(self).wf(),
        ensures
            final(self).wf(),
            match r {
                Some(op) => {
                    &&& old(self).ops_view().len() > 0
                    &&& op@ == old(self).ops_view().first()
                    &&& final(self).ops_view() == old(self).ops_view().drop_first()
                },
                None => {
                    &&& old(self).ops_view().len() == 0
                    &&& final(self).ops_view() == old(self).ops_view()
                },
            },
            final(self).hist() == old(self).hist(),
            final(self).cap() == old(self).cap(),
            final(self).initial() == old(self).initial(),
    {
        if self.ops.len() == 0 {
            None
        } else {
            let ghost prev = self.ops@;
            let op = self.ops.remove(0);
            proof {
                assert(self.ops_view() =~= prev.map_values(|m: ClientMsg| m@).drop_first());
            }
            Some(op)
        }
    }
}

/// Drains the whole op queue and translates each op, in queue order: the
/// submissions the op consumer hands the runtime are exactly the queued
/// ops, translated, in the order they were pushed. Ops pushed by one
/// connection therefore reach the runtime in send order.
pub fn drain_and_translate(entry: &mut SessionEntry) -> (r: Vec<RuntimeOp>)
    requires
        old(entry).wf(),
    ensures
        final(entry).wf(),
        final(entry).ops_view() == Seq::<ClientMsgS>::empty(),
        r@.map_values(|o: RuntimeOp| o@) == old(entry).ops_view().map_values(
            |m: ClientMsgS| translate_spec(m),
        ),
        final(entry).hist() == old(entry).hist(),
        final(entry).initial() == old(entry).initial(),
{
    let ghost all = old(entry).ops_view();
    let mut out: Vec<RuntimeOp> = Vec::new();
    proof {
        assert(all.skip(0) =~= all);
        assert(out@.map_values(|o: RuntimeOp| o@) =~= all.take(0).map_values(
            |m: ClientMsgS| translate_spec(m),
        ));
    }
    loop
        invariant
            entry.wf(),
            entry.hist() == old(entry).hist(),
            entry.initial() == old(entry).initial(),
            out@.len() <= all.len(),
            entry.ops_view() =~= all.skip(out@.len() as int),
            out@.map_values(|o: RuntimeOp| o@) =~= all.take(out@.len() as int).map_values(
                |m: ClientMsgS| translate_spec(m),
            ),
        ensures
            entry.wf(),
            entry.hist() == old(entry).hist(),
            entry.initial() == old(entry).initial(),
            entry.ops_view() =~= Seq::<ClientMsgS>::empty(),
            out@.map_values(|o: RuntimeOp| o@) =~= all.map_values(
                |m: ClientMsgS| translate_spec(m),
            ),
        decreases all.len() - out@.len(),
    {
        let ghost done = out@.len() as int;
        match entry.pop_op() {
            Some(op) => {
                proof {
                    assert(op@ == all[done]);
                    assert(all.skip(done).drop_first() =~= all.skip(done + 1));
                }
                let ghost prev = out@;
                out.push(translate(op));
                proof {
                    assert(out@.map_values(|o: RuntimeOp| o@) =~= prev.map_values(
                        |o: RuntimeOp| o@,
                    ).push(translate_spec(all[done])));
                    assert(all.take(done + 1).map_values(|m: ClientMsgS| translate_spec(m))
                        =~= all.take(done).map_values(|m: ClientMsgS| translate_spec(m)).push(
                        translate_spec(all[done]),
                    ));
                }
            },
            None => {
                proof {
                    assert(all.take(done) =~= all);
                }
                break ;
            },
        }
    }
    proof {
        assert(entry.ops_view() =~= Seq::<ClientMsgS>::empty());
        assert(out@.map_values(|o: RuntimeOp| o@) == all.map_values(
            |m: ClientMsgS| translate_spec(m),
        ));
    }
    out
}

/// Drains everything a subscriber can still receive without waiting,
/// provided it has not fallen behind: exactly the history from its cursor
/// on, in publication order.
pub fn drain_events(entry: &SessionEntry, s: &mut Subscriber) -> (r: Vec<Vec<u8>>)
    requires
        entry.wf(),
        entry.valid_sub(*old(s)),
        entry.hist().len() - old(s).cursor() <= entry.cap(),
    ensures
        entry.valid_sub(*final(s)),
        final(s).cursor() == entry.hist().len(),
        vecs_view(r@) == entry.hist().skip(old(s).cursor()),
{
    let mut out: Vec<Vec<u8>> = Vec::new();
    let ghost c0 = old(s).cursor();
    proof {
        assert(vecs_view(out@) =~= entry.hist().subrange(c0, c0));
    }
    loop
        invariant
            entry.wf(),
            entry.valid_sub(*s),
            0 <= c0 <= s.cursor() <= entry.hist().len(),
            entry.hist().len() - s.cursor() <= entry.cap(),
            vecs_view(out@) =~= entry.hist().subrange(c0, s.cursor()),
        ensures
            entry.valid_sub(*s),
            s.cursor() == entry.hist().len(),
            vecs_view(out@) =~= entry.hist().skip(c0),
        decreases entry.hist().len() - s.cursor(),
    {
        let ghost c = s.cursor();
        match entry.recv(s) {
            RecvOutcome::Event(ev) => {
                let ghost prev = out@;
                out.push(ev);
                proof {
                    let h = entry.hist();
                    assert(0 <= c0 <= c < h.len());
                    assert(vecs_view(out@) =~= vecs_view(prev).push(h[c]));
                    assert(h.subrange(c0, c + 1) =~= h.subrange(c0, c).push(h[c]));
                }
            },
            RecvOutcome::Lagged(_) => {
                proof {
                    assert(false);
                }
            },
            RecvOutcome::Empty => {
                proof {
                    assert(entry.hist().subrange(c0, s.cursor()) =~= entry.hist().skip(c0));
                }
                break ;
            },
        }
    }
    out
}

/// The stream one subscriber observes, attached at history position `c0`:
/// the retained initial event, then the live events from its cursor, in
/// publication order.
pub open spec fn observed_stream(e: SessionEntry, c0: int) -> Seq<Seq<u8>> {
    (match e.initial() {
        Some(j) => seq![j],
        None => Seq::empty(),
    }).add(e.hist().skip(c0))
}

/// Every subscriber observes the initial (session-configured) event before
/// any live event.
pub proof fn lemma_initial_event_first(e: SessionEntry, c0: int)
    requires
        e.wf(),
        0 <= c0 <= e.hist().len(),
        e.initial() is Some,
    ensures
        observed_stream(e, c0).len() > 0,
        observed_stream(e, c0)[0] == e.initial()->0,
        forall|i: int|
            1 <= i < observed_stream(e, c0).len() ==> observed_stream(e, c0)[i] == e.hist()[c0 + i
                - 1],
{
}

/// Two subscribers observe the live events in one shared order: what a
/// later subscriber observes is a suffix of what an earlier one observes.
/// No reordering is ever introduced between subscribers.
pub proof fn lemma_shared_order(e: SessionEntry, c1: int, c2: int)
    requires
        e.wf(),
        0 <= c1 <= c2 <= e.hist().len(),
    ensures
        e.hist().skip(c2) == e.hist().skip(c1).skip(c2 - c1),
{
    assert(e.hist().skip(c2) =~= e.hist().skip(c1).skip(c2 - c1));
}

} // verus!
