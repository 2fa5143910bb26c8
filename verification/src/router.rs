//! The per-connection routing policy: what each inbound frame does to the
//! registry, to the connection's own state, and where (if anywhere) a frame
//! is relayed.
//!
//! [`step_spec`] is the mathematical transition; [`route_frame`] is the
//! executable router, proved to implement it. [`disconnect`] is the teardown
//! that runs exactly once when a connection's pipeline terminates.

use vstd::prelude::*;

use crate::frame::{Frame, FrameView, recipient_connected_frame, recipient_connected_json};
use crate::parse::{TextCommand, TextCommandView, classify_text, classify_view_of, opt_view, str_eq};
use crate::registry::{PeerHandle, PeerHandleView, Registry};

verus! {

/// Per-connection state: identity, the identifier it registered under (if
/// any), and the most recently referenced relay target.
#[derive(Debug)]
pub struct Session {
    /// Identifies this connection; the registry stores it in peer handles.
    pub handle: usize,
    /// The application-supplied identifier from the latest register frame.
    pub registered_id: Option<String>,
    /// The most recently referenced target identifier; latest write wins.
    pub current_target: Option<String>,
}

/// Mathematical image of a [`Session`].
pub struct SessionView {
    pub handle: usize,
    pub registered_id: Option<Seq<char>>,
    pub current_target: Option<Seq<char>>,
}

impl View for Session {
    type V = SessionView;

    open spec fn view(&self) -> SessionView {
        SessionView {
            handle: self.handle,
            registered_id: opt_view(self.registered_id),
            current_target: opt_view(self.current_target),
        }
    }
}

impl Session {
    /// The state of a connection fresh from transport accept: no registered
    /// id, no target yet.
    pub fn new(handle: usize) -> (s: Session)
        ensures
            s@ == (SessionView { handle, registered_id: None, current_target: None }),
    {
        Session { handle, registered_id: None, current_target: None }
    }
}

/// One frame to be placed on one connection's outbound queue.
#[derive(Debug)]
pub struct Delivery {
    /// The connection whose outbound queue receives the frame.
    pub dest: usize,
    /// The frame to enqueue, verbatim.
    pub frame: Frame,
}

/// Mathematical image of a [`Delivery`].
pub struct DeliveryView {
    pub dest: usize,
    pub frame: FrameView,
}

impl View for Delivery {
    type V = DeliveryView;

    open spec fn view(&self) -> DeliveryView {
        DeliveryView { dest: self.dest, frame: self.frame@ }
    }
}

/// View of an optional delivery.
pub open spec fn opt_delivery_view(o: Option<Delivery>) -> Option<DeliveryView> {
    match o {
        Some(d) => Some(d@),
        None => None,
    }
}

/// What routing one frame produced: at most one delivery, and whether the
/// pipeline terminates.
pub struct RouteOutcome {
    pub delivery: Option<Delivery>,
    pub terminate: bool,
}

/// The full effect of one routing step: the registry and session after it,
/// the delivery it produced, and whether the pipeline terminates.
pub struct StepSpec {
    pub registry: Map<Seq<char>, PeerHandleView>,
    pub session: SessionView,
    pub delivery: Option<DeliveryView>,
    pub terminate: bool,
}

/// Effect of a classified text frame. `raw` is the whole inbound text,
/// relayed verbatim when the command is a relay.
///
/// A registration with role `"receiver"` sends the `recipient_connected`
/// notification to whatever handle the registered identifier now resolves
/// to — which is the registering connection itself, since its own upsert has
/// just run. The protocol keeps this behaviour deliberately.
pub open spec fn text_step_spec(
    reg: Map<Seq<char>, PeerHandleView>,
    sess: SessionView,
    cmd: TextCommandView,
    raw: Seq<char>,
) -> StepSpec {
    match cmd {
        TextCommandView::Register { connection_id, role } => StepSpec {
            registry: reg.insert(connection_id, PeerHandleView { conn: sess.handle, role }),
            session: SessionView { registered_id: Some(connection_id), ..sess },
            delivery: if role == "receiver"@ {
                Some(
                    DeliveryView {
                        dest: sess.handle,
                        frame: FrameView::Text(recipient_connected_json()),
                    },
                )
            } else {
                None
            },
            terminate: false,
        },
        TextCommandView::Relay { target_id } => StepSpec {
            registry: reg,
            session: SessionView { current_target: Some(target_id), ..sess },
            delivery: if reg.contains_key(target_id) {
                Some(DeliveryView { dest: reg[target_id].conn, frame: FrameView::Text(raw) })
            } else {
                None
            },
            terminate: false,
        },
        TextCommandView::Ignore => StepSpec { registry: reg, session: sess, delivery: None, terminate: false },
    }
}

/// Effect of a binary frame: relayed verbatim to the registry-resolved
/// current target, dropped if no target was ever set or it no longer
/// resolves.
pub open spec fn binary_step_spec(
    reg: Map<Seq<char>, PeerHandleView>,
    sess: SessionView,
    payload: Seq<u8>,
) -> StepSpec {
    StepSpec {
        registry: reg,
        session: sess,
        delivery: match sess.current_target {
            Some(tid) => if reg.contains_key(tid) {
                Some(DeliveryView { dest: reg[tid].conn, frame: FrameView::Binary(payload) })
            } else {
                None
            },
            None => None,
        },
        terminate: false,
    }
}

/// The routing transition for one inbound frame.
pub open spec fn step_spec(
    reg: Map<Seq<char>, PeerHandleView>,
    sess: SessionView,
    frame: FrameView,
) -> StepSpec {
    match frame {
        FrameView::Text(t) => text_step_spec(reg, sess, classify_view_of(t), t),
        FrameView::Binary(b) => binary_step_spec(reg, sess, b),
        FrameView::Ping => StepSpec { registry: reg, session: sess, delivery: None, terminate: false },
        FrameView::Close => StepSpec { registry: reg, session: sess, delivery: None, terminate: true },
    }
}

/// Routes one inbound frame: updates the registry and session and returns
/// the delivery to perform, exactly as [`step_spec`] says. The pipeline
/// terminates only on a close frame; in particular a malformed frame or an
/// unresolved target never closes the connection.
pub fn route_frame(registry: &mut Registry, session: &mut Session, frame: Frame) -> (out:
    RouteOutcome)
    requires
        old(registry).wf(),
    ensures
        final(registry).wf(),
        ({
            let step = step_spec(old(registry)@, old(session)@, frame@);
            &&& final(registry)@ == step.registry
            &&& final(session)@ == step.session
            &&& opt_delivery_view(out.delivery) == step.delivery
            &&& out.terminate == step.terminate
        }),
        out.terminate <==> frame@ is Close,
{
    match frame {
        Frame::Text(text) => {
            match classify_text(text.as_str()) {
                TextCommand::Register { connection_id, role } => {
                    let is_receiver = str_eq(role.as_str(), "receiver");
                    registry.upsert(
                        connection_id.as_str().to_owned(),
                        PeerHandle { conn: session.handle, role },
                    );
                    let delivery = if is_receiver {
                        match registry.lookup(connection_id.as_str()) {
                            Some(h) => Some(
                                Delivery { dest: h.conn, frame: recipient_connected_frame() },
                            ),
                            None => None,
                        }
                    } else {
                        None
                    };
                    session.registered_id = Some(connection_id);
                    RouteOutcome { delivery, terminate: false }
                },
                TextCommand::Relay { target_id } => {
                    let dest = match registry.lookup(target_id.as_str()) {
                        Some(h) => Some(h.conn),
                        None => None,
                    };
                    session.current_target = Some(target_id);
                    let delivery = match dest {
                        Some(c) => Some(Delivery { dest: c, frame: Frame::Text(text) }),
                        None => None,
                    };
                    RouteOutcome { delivery, terminate: false }
                },
                TextCommand::Ignore => RouteOutcome { delivery: None, terminate: false },
            }
        },
        Frame::Binary(payload) => {
            let delivery = match &session.current_target {
                Some(tid) => match registry.lookup(tid.as_str()) {
                    Some(h) => Some(Delivery { dest: h.conn, frame: Frame::Binary(payload) }),
                    None => None,
                },
                None => None,
            };
            RouteOutcome { delivery, terminate: false }
        },
        Frame::Ping => RouteOutcome { delivery: None, terminate: false },
        Frame::Close => RouteOutcome { delivery: None, terminate: true },
    }
}

/// The registry after a connection's pipeline has terminated: its registered
/// id (if it ever registered) is removed; an unregistered connection leaves
/// the registry untouched, since its transport identifier was never a key.
pub open spec fn deregister_spec(
    reg: Map<Seq<char>, PeerHandleView>,
    sess: SessionView,
) -> Map<Seq<char>, PeerHandleView> {
    match sess.registered_id {
        Some(rid) => reg.remove(rid),
        None => reg,
    }
}

/// Teardown, run exactly once when any of a connection's pipeline tasks
/// ends: deregisters the connection, after which its registered id no longer
/// resolves.
pub fn disconnect(registry: &mut Registry, session: &Session)
    requires
        old(registry).wf(),
    ensures
        final(registry).wf(),
        final(registry)@ == deregister_spec(old(registry)@, session@),
        match session@.registered_id {
            Some(rid) => !final(registry)@.contains_key(rid),
            None => final(registry)@ == old(registry)@,
        },
{
    match &session.registered_id {
        Some(rid) => registry.remove(rid.as_str()),
        None => {},
    }
}

/// Law: registering under an identifier makes the registering connection's
/// own handle the one that identifier resolves to, whatever handle any
/// earlier registration had stored there — so of any sequence of register
/// frames with the same `connectionId`, only the most recent handle is
/// resolvable.
pub proof fn lemma_latest_register_wins(
    reg: Map<Seq<char>, PeerHandleView>,
    sess: SessionView,
    cid: Seq<char>,
    role: Seq<char>,
    raw: Seq<char>,
)
    ensures
        ({
            let step = text_step_spec(
                reg,
                sess,
                TextCommandView::Register { connection_id: cid, role },
                raw,
            );
            &&& step.registry.contains_key(cid)
            &&& step.registry[cid] == (PeerHandleView { conn: sess.handle, role })
        }),
{
}

/// Law: a relay frame whose `target_id` is not registered delivers nothing,
/// changes nothing but the sender's current target, and never terminates the
/// sending connection.
pub proof fn lemma_unresolved_relay_harmless(
    reg: Map<Seq<char>, PeerHandleView>,
    sess: SessionView,
    tid: Seq<char>,
    raw: Seq<char>,
)
    requires
        !reg.contains_key(tid),
    ensures
        ({
            let step = text_step_spec(reg, sess, TextCommandView::Relay { target_id: tid }, raw);
            &&& step.delivery is None
            &&& !step.terminate
            &&& step.registry == reg
            &&& step.session == (SessionView { current_target: Some(tid), ..sess })
        }),
{
}

/// Law: a binary frame arriving before any relay frame has set a target is
/// dropped outright — no delivery, and neither the registry nor the session
/// retains anything of it.
pub proof fn lemma_binary_without_target_dropped(
    reg: Map<Seq<char>, PeerHandleView>,
    sess: SessionView,
    payload: Seq<u8>,
)
    requires
        sess.current_target is None,
    ensures
        ({
            let step = step_spec(reg, sess, FrameView::Binary(payload));
            &&& step.delivery is None
            &&& !step.terminate
            &&& step.registry == reg
            &&& step.session == sess
        }),
{
}

/// Law: once a connection's pipeline has terminated and teardown has run,
/// its registered id no longer resolves, and a subsequent relay to that id
/// delivers nothing.
pub proof fn lemma_deregistered_unreachable(
    reg: Map<Seq<char>, PeerHandleView>,
    sess: SessionView,
    rid: Seq<char>,
    later_sess: SessionView,
    raw: Seq<char>,
)
    requires
        sess.registered_id == Some(rid),
    ensures
        ({
            let reg2 = deregister_spec(reg, sess);
            &&& !reg2.contains_key(rid)
            &&& text_step_spec(
                reg2,
                later_sess,
                TextCommandView::Relay { target_id: rid },
                raw,
            ).delivery is None
        }),
{
}

} // verus!
