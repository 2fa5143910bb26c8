//! A linearized model of the whole hub: every live connection with its
//! session and outbound queue, plus the shared registry.
//!
//! Concurrent task groups interleave their critical sections under the one
//! registry guard; this model processes those linearized events one at a
//! time: an inbound frame ([`Hub::inbound`]), a keepalive tick
//! ([`Hub::keepalive_tick`]) and the writer draining its queue
//! ([`Hub::writer_take`]). Outbound queues are bounded FIFO: deliveries
//! append at the tail, the writer takes from the head.

use vstd::prelude::*;

use crate::QUEUE_CAPACITY;
use crate::frame::{Frame, FrameView};
use crate::parse::{TextCommandView, classify_view_of};
use crate::registry::{PeerHandleView, Registry};
use crate::router::{
    DeliveryView,
    Session,
    SessionView,
    deregister_spec,
    disconnect,
    opt_delivery_view,
    route_frame,
    step_spec,
};

verus! {

/// One connection as the hub holds it: its session, its bounded outbound
/// queue (oldest frame first), and whether its pipeline is still running.
pub struct HubConnection {
    pub session: Session,
    pub outbound: Vec<Frame>,
    pub live: bool,
}

/// Mathematical image of a [`HubConnection`].
#[verifier::ext_equal]
pub struct ConnView {
    pub session: SessionView,
    pub outbound: Seq<FrameView>,
    pub live: bool,
}

/// View of a frame, for mapping queues to their mathematical image.
pub open spec fn frame_view(f: Frame) -> FrameView {
    f@
}

impl View for HubConnection {
    type V = ConnView;

    open spec fn view(&self) -> ConnView {
        ConnView {
            session: self.session@,
            outbound: self.outbound@.map_values(|f: Frame| frame_view(f)),
            live: self.live,
        }
    }
}

/// The whole hub: the shared registry and every connection accepted so far,
/// indexed by its handle. A terminated connection stays at its index, marked
/// dead.
pub struct Hub {
    registry: Registry,
    conns: Vec<HubConnection>,
}

/// Mathematical image of a [`Hub`].
#[verifier::ext_equal]
pub struct HubView {
    pub registry: Map<Seq<char>, PeerHandleView>,
    pub conns: Seq<ConnView>,
}

impl View for Hub {
    type V = HubView;

    closed spec fn view(&self) -> HubView {
        HubView {
            registry: self.registry@,
            conns: self.conns@.map_values(|c: HubConnection| c@),
        }
    }
}

/// Well-formedness of the hub's image: each connection's handle is its
/// index, and every registered handle points at an accepted connection.
pub open spec fn hub_wf_view(s: HubView) -> bool {
    &&& forall|i: int|
        0 <= i < s.conns.len() ==> (#[trigger] s.conns[i]).session.handle == i
    &&& forall|k: Seq<char>|
        s.registry.contains_key(k) ==> (#[trigger] s.registry[k]).conn < s.conns.len()
}

/// The queues after performing a delivery: the frame is appended to the
/// destination's outbound queue, unless that connection is dead or its queue
/// is full — then the frame is dropped silently, never buffered elsewhere.
pub open spec fn enqueue_spec(conns: Seq<ConnView>, d: DeliveryView) -> Seq<ConnView> {
    let dest = d.dest as int;
    if 0 <= dest < conns.len() && conns[dest].live && conns[dest].outbound.len() < QUEUE_CAPACITY {
        conns.update(
            dest,
            ConnView { outbound: conns[dest].outbound.push(d.frame), ..conns[dest] },
        )
    } else {
        conns
    }
}

/// The hub after one inbound frame on connection `h`: the routing step runs;
/// if it terminates the pipeline, the connection is deregistered, marked
/// dead and its queue dropped; otherwise the session is updated and the
/// step's delivery (if any) is enqueued.
pub open spec fn hub_inbound_spec(s: HubView, h: int, f: FrameView) -> HubView {
    let step = step_spec(s.registry, s.conns[h].session, f);
    if step.terminate {
        HubView {
            registry: deregister_spec(s.registry, s.conns[h].session),
            conns: s.conns.update(
                h,
                ConnView {
                    session: s.conns[h].session,
                    outbound: Seq::empty(),
                    live: false,
                },
            ),
        }
    } else {
        let conns1 = s.conns.update(
            h,
            ConnView {
                session: step.session,
                outbound: s.conns[h].outbound,
                live: s.conns[h].live,
            },
        );
        match step.delivery {
            Some(d) => HubView { registry: step.registry, conns: enqueue_spec(conns1, d) },
            None => HubView { registry: step.registry, conns: conns1 },
        }
    }
}

proof fn lemma_wf_push_conn(s: HubView, c: ConnView)
    requires
        hub_wf_view(s),
        c.session.handle == s.conns.len(),
    ensures
        hub_wf_view(HubView { registry: s.registry, conns: s.conns.push(c) }),
{
    let s2 = HubView { registry: s.registry, conns: s.conns.push(c) };
    assert forall|i: int|
        0 <= i < s2.conns.len() implies (#[trigger] s2.conns[i]).session.handle == i by {
        if i < s.conns.len() {
            assert(s2.conns[i] == s.conns[i]);
        } else {
            assert(s2.conns[i] == c);
        }
    }
}

proof fn lemma_wf_update_queue(s: HubView, h: int, q: Seq<FrameView>, live: bool)
    requires
        hub_wf_view(s),
        0 <= h < s.conns.len(),
    ensures
        hub_wf_view(
            HubView {
                registry: s.registry,
                conns: s.conns.update(
                    h,
                    ConnView { session: s.conns[h].session, outbound: q, live },
                ),
            },
        ),
{
    let s2 = HubView {
        registry: s.registry,
        conns: s.conns.update(h, ConnView { session: s.conns[h].session, outbound: q, live }),
    };
    assert forall|i: int|
        0 <= i < s2.conns.len() implies (#[trigger] s2.conns[i]).session.handle == i by {
        if i != h {
            assert(s2.conns[i] == s.conns[i]);
        }
    }
}

impl Hub {
    /// Internal well-formedness.
    pub closed spec fn wf(&self) -> bool {
        self.registry.wf() && hub_wf_view(self@)
    }

    /// A hub with no connections and an empty registry.
    pub fn new() -> (hub: Hub)
        ensures
            hub.wf(),
            hub@.conns == Seq::<ConnView>::empty(),
            hub@.registry == Map::<Seq<char>, PeerHandleView>::empty(),
    {
        let hub = Hub { registry: Registry::new(), conns: Vec::new() };
        proof {
            assert(hub@.conns =~~= Seq::<ConnView>::empty());
        }
        hub
    }

    /// Accepts a connection: a fresh session with the next handle, a live
    /// pipeline, an empty outbound queue.
    pub fn connect(&mut self) -> (h: usize)
        requires
            old(self).wf(),
        ensures
            final(self).wf(),
            h == old(self)@.conns.len(),
            final(self)@.registry == old(self)@.registry,
            final(self)@.conns == old(self)@.conns.push(
                ConnView {
                    session: SessionView { handle: h, registered_id: None, current_target: None },
                    outbound: Seq::empty(),
                    live: true,
                },
            ),
    {
        let ghost s0 = self@;
        let h = self.conns.len();
        self.conns.push(HubConnection { session: Session::new(h), outbound: Vec::new(), live: true });
        proof {
            let c = ConnView {
                session: SessionView { handle: h, registered_id: None, current_target: None },
                outbound: Seq::empty(),
                live: true,
            };
            assert(self@.conns =~~= s0.conns.push(c));
            lemma_wf_push_conn(s0, c);
            assert(self@ =~~= (HubView { registry: s0.registry, conns: s0.conns.push(c) }));
        }
        h
    }

    /// Processes one inbound frame from connection `h`, exactly as
    /// [`hub_inbound_spec`] says.
    pub fn inbound(&mut self, h: usize, frame: Frame)
        requires
            old(self).wf(),
            h < old(self)@.conns.len(),
        ensures
            final(self).wf(),
            final(self)@ == hub_inbound_spec(old(self)@, h as int, frame@),
    {
        let ghost s0 = self@;
        let ghost step = step_spec(s0.registry, s0.conns[h as int].session, frame@);
        let conn = &mut self.conns[h];
        let out = route_frame(&mut self.registry, &mut conn.session, frame);
        proof {
            assert(self@.conns =~~= s0.conns.update(
                h as int,
                ConnView {
                    session: step.session,
                    outbound: s0.conns[h as int].outbound,
                    live: s0.conns[h as int].live,
                },
            ));
        }
        if out.terminate {
            proof {
                assert(step.session == s0.conns[h as int].session);
                assert(step.registry == s0.registry);
            }
            disconnect(&mut self.registry, &self.conns[h].session);
            let c = &mut self.conns[h];
            c.live = false;
            c.outbound.clear();
            proof {
                assert(self@.conns =~~= hub_inbound_spec(s0, h as int, frame@).conns);
                assert(self@ =~~= hub_inbound_spec(s0, h as int, frame@));
            }
        } else {
            let ghost conns1 = self@.conns;
            match out.delivery {
                Some(d) => {
                    proof {
                        assert(opt_delivery_view(Some(d)) == step.delivery);
                        assert(d@.dest < s0.conns.len());
                    }
                    let dest = d.dest;
                    let t = &mut self.conns[dest];
                    if t.live && t.outbound.len() < QUEUE_CAPACITY {
                        t.outbound.push(d.frame);
                        proof {
                            assert(self@.conns =~~= enqueue_spec(conns1, d@));
                        }
                    } else {
                        proof {
                            assert(self@.conns =~~= enqueue_spec(conns1, d@));
                        }
                    }
                },
                None => {},
            }
            proof {
                assert(self@ =~~= hub_inbound_spec(s0, h as int, frame@));
            }
        }
    }

    /// The writer task's step: takes the oldest frame from the connection's
    /// outbound queue. Frames leave in the order they were enqueued.
    pub fn writer_take(&mut self, h: usize) -> (f: Option<Frame>)
        requires
            old(self).wf(),
            h < old(self)@.conns.len(),
        ensures
            final(self).wf(),
            final(self)@.registry == old(self)@.registry,
            ({
                let q = old(self)@.conns[h as int].outbound;
                match f {
                    Some(fr) => q.len() > 0 && fr@ == q[0] && final(self)@.conns
                        == old(self)@.conns.update(
                        h as int,
                        ConnView { outbound: q.remove(0), ..old(self)@.conns[h as int] },
                    ),
                    None => q.len() == 0 && final(self)@.conns == old(self)@.conns,
                }
            }),
    {
        let ghost s0 = self@;
        let c = &mut self.conns[h];
        if c.outbound.is_empty() {
            proof {
                assert(self@.conns =~~= s0.conns);
                assert(self@ =~~= s0);
            }
            None
        } else {
            let fr = c.outbound.remove(0);
            proof {
                let q2 = s0.conns[h as int].outbound.remove(0);
                assert(self@.conns =~~= s0.conns.update(
                    h as int,
                    ConnView { outbound: q2, ..s0.conns[h as int] },
                ));
                lemma_wf_update_queue(s0, h as int, q2, s0.conns[h as int].live);
                assert(self@ =~~= (HubView {
                    registry: s0.registry,
                    conns: s0.conns.update(
                        h as int,
                        ConnView { outbound: q2, ..s0.conns[h as int] },
                    ),
                }));
            }
            Some(fr)
        }
    }

    /// The keepalive task's step: enqueues a ping on the connection's own
    /// queue, skipped when the queue is full; reports whether the connection
    /// is still live — once it is dead the keepalive task ends.
    pub fn keepalive_tick(&mut self, h: usize) -> (ok: bool)
        requires
            old(self).wf(),
            h < old(self)@.conns.len(),
        ensures
            final(self).wf(),
            final(self)@.registry == old(self)@.registry,
            ok == old(self)@.conns[h as int].live,
            ({
                let q = old(self)@.conns[h as int].outbound;
                let c0 = old(self)@.conns[h as int];
                if c0.live && q.len() < QUEUE_CAPACITY {
                    final(self)@.conns == old(self)@.conns.update(
                        h as int,
                        ConnView { outbound: q.push(FrameView::Ping), ..c0 },
                    )
                } else {
                    final(self)@.conns == old(self)@.conns
                }
            }),
    {
        let ghost s0 = self@;
        let c = &mut self.conns[h];
        let live = c.live;
        if live && c.outbound.len() < QUEUE_CAPACITY {
            c.outbound.push(Frame::Ping);
            proof {
                let q2 = s0.conns[h as int].outbound.push(FrameView::Ping);
                assert(self@.conns =~~= s0.conns.update(
                    h as int,
                    ConnView { outbound: q2, ..s0.conns[h as int] },
                ));
                lemma_wf_update_queue(s0, h as int, q2, s0.conns[h as int].live);
                assert(self@ =~~= (HubView {
                    registry: s0.registry,
                    conns: s0.conns.update(
                        h as int,
                        ConnView { outbound: q2, ..s0.conns[h as int] },
                    ),
                }));
            }
        } else {
            proof {
                assert(self@.conns =~~= s0.conns);
                assert(self@ =~~= s0);
            }
        }
        live
    }

    /// Whether `id` currently resolves in the registry.
    pub fn is_registered(&self, id: &str) -> (b: bool)
        requires
            self.wf(),
        ensures
            b == self@.registry.contains_key(id@),
    {
        match self.registry.lookup(id) {
            Some(_) => true,
            None => false,
        }
    }

    /// How many frames wait in a connection's outbound queue.
    pub fn outbound_len(&self, h: usize) -> (n: usize)
        requires
            h < self@.conns.len(),
        ensures
            n == self@.conns[h as int].outbound.len(),
    {
        self.conns[h].outbound.len()
    }

    /// The connection's most recently referenced target, if any.
    pub fn current_target(&self, h: usize) -> (t: &Option<String>)
        requires
            h < self@.conns.len(),
        ensures
            crate::parse::opt_view(*t) == self@.conns[h as int].session.current_target,
    {
        &self.conns[h].session.current_target
    }
}

/// Law: when a connection's pipeline terminates, its registered id stops
/// resolving in that very state: the close frame leaves the connection dead,
/// its queue dropped, and the registry without its entry.
pub proof fn lemma_close_deregisters(s: HubView, h: int, rid: Seq<char>)
    requires
        0 <= h < s.conns.len(),
        s.conns[h].session.registered_id == Some(rid),
    ensures
        ({
            let s2 = hub_inbound_spec(s, h, FrameView::Close);
            &&& !s2.registry.contains_key(rid)
            &&& !s2.conns[h].live
            &&& s2.conns[h].outbound == Seq::<FrameView>::empty()
        }),
{
}

/// Law: two frames relayed to the same target from the same source are
/// enqueued in the order sent. If both texts ask for a relay to `tid`,
/// `tid` resolves to a live connection, and its queue has room for both,
/// then after the two inbound steps the target's queue holds exactly the two
/// texts, in order, behind what it already held.
pub proof fn lemma_same_path_order(s: HubView, h: int, t1: Seq<char>, t2: Seq<char>, tid: Seq<char>)
    requires
        0 <= h < s.conns.len(),
        classify_view_of(t1) == (TextCommandView::Relay { target_id: tid }),
        classify_view_of(t2) == (TextCommandView::Relay { target_id: tid }),
        s.registry.contains_key(tid),
        (s.registry[tid].conn as int) < s.conns.len(),
        ({
            let d = s.registry[tid].conn as int;
            s.conns[d].live && s.conns[d].outbound.len() + 2 <= QUEUE_CAPACITY
        }),
    ensures
        ({
            let d = s.registry[tid].conn as int;
            let s1 = hub_inbound_spec(s, h, FrameView::Text(t1));
            let s2 = hub_inbound_spec(s1, h, FrameView::Text(t2));
            s2.conns[d].outbound == s.conns[d].outbound.push(FrameView::Text(t1)).push(
                FrameView::Text(t2),
            )
        }),
{
    let d = s.registry[tid].conn as int;
    let s1 = hub_inbound_spec(s, h, FrameView::Text(t1));
    let s2 = hub_inbound_spec(s1, h, FrameView::Text(t2));
    assert(s1.registry == s.registry);
    assert(s1.conns.len() == s.conns.len());
    assert(s1.conns[d].outbound == s.conns[d].outbound.push(FrameView::Text(t1)));
    assert(s1.conns[d].live);
    assert(s2.conns[d].outbound == s1.conns[d].outbound.push(FrameView::Text(t2)));
}

/// Law: outbound queues are FIFO per sender→target path. One inbound step
/// either leaves a connection's queue unchanged, empties it because that
/// very connection's pipeline terminated, or appends exactly one frame at
/// the tail; the writer takes from the head. So frames relayed to the same
/// target from the same source are drained in the order sent.
pub proof fn lemma_outbound_fifo(s: HubView, h: int, f: FrameView, i: int)
    requires
        0 <= h < s.conns.len(),
        0 <= i < s.conns.len(),
    ensures
        ({
            let q = s.conns[i].outbound;
            let q2 = hub_inbound_spec(s, h, f).conns[i].outbound;
            ||| q2 == q
            ||| (exists|fr: FrameView| q2 == q.push(fr))
            ||| (i == h && q2 == Seq::<FrameView>::empty())
        }),
{
    let step = step_spec(s.registry, s.conns[h].session, f);
    let q = s.conns[i].outbound;
    let q2 = hub_inbound_spec(s, h, f).conns[i].outbound;
    if step.terminate {
    } else {
        match step.delivery {
            Some(d) => {
                let conns1 = s.conns.update(
                    h,
                    ConnView {
                        session: step.session,
                        outbound: s.conns[h].outbound,
                        live: s.conns[h].live,
                    },
                );
                assert(conns1[i].outbound == q);
                if i == d.dest as int && conns1[i].live && conns1[i].outbound.len()
                    < QUEUE_CAPACITY {
                    assert(q2 == q.push(d.frame));
                } else {
                    assert(q2 == q);
                }
            },
            None => {},
        }
    }
}

} // verus!
