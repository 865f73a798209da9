//! The body registry and the attachment state machine.
//!
//! Bodies are stored in arrival order and addressed by index handles.
//! A `Started` contact event between a `Player` body and an independent
//! `Attachable` body makes the attachable body a child of the player:
//! its transform is replaced by its pose in the player's local frame and
//! its mode becomes `Attached`, once and permanently. `Stopped` events
//! and pairs without exactly one player are ignored.

use vstd::prelude::*;

use crate::transform::relative_ok;
use crate::transform::relative_transform;
use crate::transform::SpecTransform;
use crate::transform::Transform;
use crate::transform::TransformError;

verus! {

/// What a body is for the attachment rules.
#[derive(Clone, Copy, Debug, PartialEq, Eq, Structural)]
pub enum Role {
    /// A driver: other bodies attach to it, it never attaches itself.
    Player,
    /// Eligible to become attached to a player, once.
    Attachable,
}

/// Whether a contact begins or ends.
#[derive(Clone, Copy, Debug, PartialEq, Eq, Structural)]
pub enum Phase {
    Started,
    Stopped,
}

/// A pairwise contact transition reported by the surrounding simulation.
#[derive(Clone, Copy, Debug, PartialEq, Eq, Structural)]
pub struct ContactEvent {
    pub a: usize,
    pub b: usize,
    pub phase: Phase,
}

/// Simulation mode of a body: integrated independently, or riding under
/// a parent body.
#[derive(Clone, Copy, Debug, PartialEq, Eq, Structural)]
pub enum Mode {
    Independent,
    Attached { parent: usize },
}

/// A simulated body. While `Independent` the transform is the world
/// transform; once `Attached` it is the fixed pose in the parent's local
/// frame.
#[derive(Clone, Copy, Debug)]
pub struct Body {
    pub role: Role,
    pub mode: Mode,
    pub transform: Transform,
}

/// The mathematical value of a body.
pub struct SpecBody {
    pub role: Role,
    pub mode: Mode,
    pub tf: SpecTransform,
}

impl View for Body {
    type V = SpecBody;

    open spec fn view(&self) -> SpecBody {
        SpecBody { role: self.role, mode: self.mode, tf: self.transform@ }
    }
}

/// The parent handle of a body, if it is attached.
pub open spec fn parent_of(b: SpecBody) -> Option<usize> {
    match b.mode {
        Mode::Independent => None,
        Mode::Attached { parent } => Some(parent),
    }
}

/// A single body is sound within the state `s`: its transform is
/// storable, and an attached body is an attachable one whose parent is a
/// valid player handle.
pub open spec fn body_ok(s: Seq<SpecBody>, i: int) -> bool {
    &&& s[i].tf.fits()
    &&& match s[i].mode {
        Mode::Independent => true,
        Mode::Attached { parent } => {
            &&& s[i].role == Role::Attachable
            &&& parent < s.len()
            &&& s[parent as int].role == Role::Player
        },
    }
}

/// Every body of the state is sound.
pub open spec fn wf_state(s: Seq<SpecBody>) -> bool {
    forall|i: int| 0 <= i < s.len() ==> #[trigger] body_ok(s, i)
}

/// A `Started` event between a player and an independent attachable body.
pub open spec fn spec_qualifies(s: Seq<SpecBody>, ev: ContactEvent) -> bool {
    &&& ev.phase == Phase::Started
    &&& ev.a < s.len()
    &&& ev.b < s.len()
    &&& {
        ||| {
            &&& s[ev.a as int].role == Role::Player
            &&& s[ev.b as int].role == Role::Attachable
            &&& s[ev.b as int].mode == Mode::Independent
        }
        ||| {
            &&& s[ev.b as int].role == Role::Player
            &&& s[ev.a as int].role == Role::Attachable
            &&& s[ev.a as int].mode == Mode::Independent
        }
    }
}

/// The (driver, target) reading of a qualifying event.
pub open spec fn spec_pair(s: Seq<SpecBody>, ev: ContactEvent) -> (usize, usize) {
    if s[ev.a as int].role == Role::Player {
        (ev.a, ev.b)
    } else {
        (ev.b, ev.a)
    }
}

/// Why an attachment could not be made.
#[derive(Clone, Copy, Debug, PartialEq, Eq, Structural)]
pub enum AttachError {
    /// The driver handle does not name a body.
    DanglingParent,
    /// The driver's transform is not invertible.
    MalformedTransform,
    /// An entry of the exact relative transform is not storable.
    Overflow,
}

/// What processing one event did.
#[derive(Clone, Copy, Debug, PartialEq, Eq, Structural)]
pub enum AttachOutcome {
    /// The target was grafted under the driver.
    Attached { driver: usize, target: usize },
    /// The event did not qualify; the state is unchanged.
    Ignored,
    /// The event qualified but no attachment could be made; the state is
    /// unchanged.
    Failed { error: AttachError },
}

/// The state after one event: the target of a qualifying event whose
/// relative transform can be resolved becomes attached; anything else
/// leaves the state as it is.
pub open spec fn spec_step(s: Seq<SpecBody>, ev: ContactEvent) -> Seq<SpecBody> {
    if spec_qualifies(s, ev) {
        let d = spec_pair(s, ev).0;
        let t = spec_pair(s, ev).1;
        if relative_ok(s[d as int].tf, s[t as int].tf) {
            s.update(t as int, SpecBody {
                role: Role::Attachable,
                mode: Mode::Attached { parent: d },
                tf: s[d as int].tf.inverse().compose(s[t as int].tf),
            })
        } else {
            s
        }
    } else {
        s
    }
}

/// The outcome reported for one event.
pub open spec fn spec_outcome(s: Seq<SpecBody>, ev: ContactEvent) -> AttachOutcome {
    if spec_qualifies(s, ev) {
        let d = spec_pair(s, ev).0;
        let t = spec_pair(s, ev).1;
        if s[d as int].tf.det() == 0 {
            AttachOutcome::Failed { error: AttachError::MalformedTransform }
        } else if !relative_ok(s[d as int].tf, s[t as int].tf) {
            AttachOutcome::Failed { error: AttachError::Overflow }
        } else {
            AttachOutcome::Attached { driver: d, target: t }
        }
    } else {
        AttachOutcome::Ignored
    }
}

/// The state after a whole batch of events, processed in arrival order.
pub open spec fn spec_run(s: Seq<SpecBody>, evs: Seq<ContactEvent>) -> Seq<SpecBody>
    decreases evs.len(),
{
    if evs.len() == 0 {
        s
    } else {
        spec_run(spec_step(s, evs[0]), evs.drop_first())
    }
}

/// The store of simulated bodies, keyed by index handle.
pub struct BodyRegistry {
    bodies: Vec<Body>,
}

impl View for BodyRegistry {
    type V = Seq<SpecBody>;

    closed spec fn view(&self) -> Seq<SpecBody> {
        Seq::new(self.bodies@.len(), |i: int| self.bodies@[i]@)
    }
}

impl BodyRegistry {
    /// Every body sound.
    pub open spec fn wf(&self) -> bool {
        wf_state(self@)
    }

    /// An empty registry.
    pub fn new() -> (r: BodyRegistry)
        ensures
            r@ == Seq::<SpecBody>::empty(),
            r.wf(),
    {
        let r = BodyRegistry { bodies: Vec::new() };
        proof {
            assert(r@ =~= Seq::<SpecBody>::empty());
        }
        r
    }

    /// How many bodies exist.
    pub fn len(&self) -> (n: usize)
        ensures
            n == self@.len(),
    {
        self.bodies.len()
    }

    /// Adds a body in `Independent` mode and returns its handle.
    pub fn spawn(&mut self, role: Role, transform: Transform) -> (id: usize)
        requires
            old(self).wf(),
            transform.wf(),
        ensures
            final(self)@ == old(self)@.push(
                (SpecBody { role, mode: Mode::Independent, tf: transform@ }),
            ),
            id == old(self)@.len(),
            final(self).wf(),
    {
        let id = self.bodies.len();
        self.bodies.push(Body { role, mode: Mode::Independent, transform });
        proof {
            let snew = self@;
            let sold = old(self)@;
            assert(snew =~= sold.push(
                SpecBody { role, mode: Mode::Independent, tf: transform@ },
            ));
            assert forall|i: int| 0 <= i < snew.len() implies #[trigger] body_ok(snew, i) by {
                if i < sold.len() {
                    assert(body_ok(sold, i));
                }
            }
        }
        id
    }

    /// The role of a body.
    pub fn role_of(&self, id: usize) -> (r: Role)
        requires
            id < self@.len(),
        ensures
            r == self@[id as int].role,
    {
        self.bodies[id].role
    }

    /// The mode of a body.
    pub fn mode_of(&self, id: usize) -> (m: Mode)
        requires
            id < self@.len(),
        ensures
            m == self@[id as int].mode,
    {
        self.bodies[id].mode
    }

    /// The stored transform of a body: its world transform while
    /// independent, its relative transform once attached.
    pub fn transform_of(&self, id: usize) -> (t: Transform)
        requires
            id < self@.len(),
        ensures
            t@ == self@[id as int].tf,
    {
        self.bodies[id].transform
    }

    /// Replaces the stored transform of a body.
    pub fn set_transform(&mut self, id: usize, t: Transform)
        requires
            old(self).wf(),
            id < old(self)@.len(),
            t.wf(),
        ensures
            final(self)@ == old(self)@.update(id as int,
                (SpecBody { tf: t@, ..old(self)@[id as int] }),
            ),
            final(self).wf(),
    {
        let mut b = self.bodies[id];
        b.transform = t;
        self.bodies[id] = b;
        proof {
            let snew = self@;
            let sold = old(self)@;
            assert(snew =~= sold.update(id as int, SpecBody { tf: t@, ..sold[id as int] }));
            assert forall|i: int| 0 <= i < snew.len() implies #[trigger] body_ok(snew, i) by {
                assert(body_ok(sold, i));
            }
        }
    }

    /// The effective world transform of a body: its own while
    /// independent, the parent's composed with the stored relative
    /// transform once attached, so an attached body tracks its driver.
    pub fn world_transform(&self, id: usize) -> (r: Result<Transform, TransformError>)
        requires
            self.wf(),
            id < self@.len(),
        ensures
            self@[id as int].mode == Mode::Independent ==> (r matches Ok(t)
                && t@ == self@[id as int].tf),
            self@[id as int].mode matches Mode::Attached { parent } ==> {
                &&& (r matches Ok(t) ==> t@ == self@[parent as int].tf.compose(
                    self@[id as int].tf,
                ))
                &&& (r is Ok <==> self@[parent as int].tf.compose(self@[id as int].tf).fits())
            },
    {
        proof {
            assert(body_ok(self@, id as int));
        }
        match self.mode_of(id) {
            Mode::Independent => Ok(self.transform_of(id)),
            Mode::Attached { parent } => {
                proof {
                    assert(body_ok(self@, parent as int));
                }
                let pt = self.transform_of(parent);
                let ct = self.transform_of(id);
                pt.compose(&ct)
            },
        }
    }

    /// Classifies a contact event: `Some((driver, target))` exactly when
    /// one side is a player and the other an independent attachable body.
    pub fn classify_event(&self, ev: &ContactEvent) -> (r: Option<(usize, usize)>)
        requires
            self.wf(),
        ensures
            r is Some <==> spec_qualifies(self@, *ev),
            r matches Some(p) ==> p == spec_pair(self@, *ev),
    {
        if !matches!(ev.phase, Phase::Started) {
            return None;
        }
        let n = self.bodies.len();
        if ev.a >= n || ev.b >= n {
            return None;
        }
        let role_a = self.role_of(ev.a);
        let role_b = self.role_of(ev.b);
        if matches!(role_a, Role::Player) && matches!(role_b, Role::Attachable)
            && matches!(self.mode_of(ev.b), Mode::Independent) {
            Some((ev.a, ev.b))
        } else if matches!(role_b, Role::Player) && matches!(role_a, Role::Attachable)
            && matches!(self.mode_of(ev.a), Mode::Independent) {
            Some((ev.b, ev.a))
        } else {
            None
        }
    }

    /// Grafts `target` under `driver`: strips its independent mode,
    /// replaces its transform by its pose in the driver's frame, and
    /// records the parent. Fails without changing anything when the
    /// driver handle is dangling, the driver's transform has no inverse,
    /// or the exact relative transform is not storable.
    pub fn attach(&mut self, driver: usize, target: usize) -> (r: Result<(), AttachError>)
        requires
            old(self).wf(),
            target < old(self)@.len(),
            old(self)@[target as int].role == Role::Attachable,
            old(self)@[target as int].mode == Mode::Independent,
            driver < old(self)@.len() ==> old(self)@[driver as int].role == Role::Player,
        ensures
            final(self).wf(),
            r == Err::<(), AttachError>(AttachError::DanglingParent)
                <==> driver >= old(self)@.len(),
            r == Err::<(), AttachError>(AttachError::MalformedTransform)
                <==> driver < old(self)@.len()
                    && old(self)@[driver as int].tf.det() == 0,
            r is Ok <==> driver < old(self)@.len() && relative_ok(
                old(self)@[driver as int].tf,
                old(self)@[target as int].tf,
            ),
            r is Ok ==> final(self)@ == old(self)@.update(target as int,
                (SpecBody {
                    role: Role::Attachable,
                    mode: Mode::Attached { parent: driver },
                    tf: old(self)@[driver as int].tf.inverse().compose(
                        old(self)@[target as int].tf,
                    ),
                }),
            ),
            r is Err ==> final(self)@ == old(self)@,
    {
        if driver >= self.bodies.len() {
            return Err(AttachError::DanglingParent);
        }
        proof {
            assert(body_ok(self@, driver as int));
            assert(body_ok(self@, target as int));
        }
        let pt = self.transform_of(driver);
        let ct = self.transform_of(target);
        match relative_transform(&pt, &ct) {
            Err(TransformError::NonInvertible) => Err(AttachError::MalformedTransform),
            Err(TransformError::Overflow) => Err(AttachError::Overflow),
            Ok(rel) => {
                let mut b = self.bodies[target];
                b.mode = Mode::Attached { parent: driver };
                b.transform = rel;
                self.bodies[target] = b;
                proof {
                    let snew = self@;
                    let sold = old(self)@;
                    assert(snew =~= sold.update(target as int, SpecBody {
                        role: Role::Attachable,
                        mode: Mode::Attached { parent: driver },
                        tf: sold[driver as int].tf.inverse().compose(sold[target as int].tf),
                    }));
                    assert forall|i: int| 0 <= i < snew.len() implies #[trigger] body_ok(
                        snew, i,
                    ) by {
                        assert(body_ok(sold, i));
                        match sold[i].mode {
                            Mode::Attached { parent } => {
                                assert(sold[parent as int].role == Role::Player);
                                assert(parent != target);
                            },
                            Mode::Independent => {},
                        }
                    }
                }
                Ok(())
            },
        }
    }

    /// Processes one contact event as `spec_step` describes and reports
    /// what happened.
    pub fn process_event(&mut self, ev: &ContactEvent) -> (r: AttachOutcome)
        requires
            old(self).wf(),
        ensures
            final(self).wf(),
            final(self)@ == spec_step(old(self)@, *ev),
            r == spec_outcome(old(self)@, *ev),
    {
        match self.classify_event(ev) {
            None => AttachOutcome::Ignored,
            Some((driver, target)) => match self.attach(driver, target) {
                Ok(()) => AttachOutcome::Attached { driver, target },
                Err(e) => AttachOutcome::Failed { error: e },
            },
        }
    }

    /// Processes a batch of contact events in arrival order; an
    /// attachment made early in the batch is seen by the classification
    /// of every later event.
    pub fn process_batch(&mut self, events: &Vec<ContactEvent>)
        requires
            old(self).wf(),
        ensures
            final(self).wf(),
            final(self)@ == spec_run(old(self)@, events@),
    {
        let ghost start = old(self)@;
        let n = events.len();
        let mut i: usize = 0;
        proof {
            assert(events@.skip(0) =~= events@);
        }
        while i < n
            invariant
                n == events@.len(),
                i <= n,
                self.wf(),
                spec_run(self@, events@.skip(i as int)) == spec_run(start, events@),
            decreases n - i,
        {
            let ghost before = self@;
            self.process_event(&events[i]);
            proof {
                let evs = events@.skip(i as int);
                assert(evs[0] == events@[i as int]);
                assert(evs.drop_first() =~= events@.skip(i as int + 1));
                assert(spec_run(before, evs) == spec_run(self@, evs.drop_first()));
            }
            i = i + 1;
        }
        proof {
            assert(events@.skip(n as int) =~= Seq::<ContactEvent>::empty());
        }
    }
}

/// Re-delivering an event changes nothing: one `Started` contact makes
/// at most one attachment, however often it is reported.
pub proof fn lemma_step_idempotent(s: Seq<SpecBody>, ev: ContactEvent)
    ensures
        spec_step(spec_step(s, ev), ev) == spec_step(s, ev),
{
    if spec_qualifies(s, ev) {
        let d = spec_pair(s, ev).0;
        let t = spec_pair(s, ev).1;
        if relative_ok(s[d as int].tf, s[t as int].tf) {
            let s1 = spec_step(s, ev);
            assert(s1[t as int].mode == (Mode::Attached { parent: d }));
            assert(s1[ev.a as int].role == s[ev.a as int].role);
            assert(s1[ev.b as int].role == s[ev.b as int].role);
            assert(!spec_qualifies(s1, ev));
        }
    }
}

/// The attachment relation is a forest at depth one: every attached body
/// has exactly one parent, the parent is a valid, distinct body, and the
/// parent itself is independent, so no chain and no cycle can form.
pub proof fn lemma_wf_is_forest(s: Seq<SpecBody>)
    requires
        wf_state(s),
    ensures
        forall|i: int| 0 <= i < s.len() && #[trigger] parent_of(s[i]) is Some ==> {
            let p = parent_of(s[i]).unwrap();
            &&& p < s.len()
            &&& p != i
            &&& parent_of(s[p as int]) is None
        },
{
    assert forall|i: int| 0 <= i < s.len() && #[trigger] parent_of(s[i]) is Some implies {
        let p = parent_of(s[i]).unwrap();
        &&& p < s.len()
        &&& p != i
        &&& parent_of(s[p as int]) is None
    } by {
        assert(body_ok(s, i));
        let p = parent_of(s[i]).unwrap();
        assert(body_ok(s, p as int));
        assert(s[p as int].role == Role::Player);
    }
}

/// One step keeps every body sound: a qualifying attachment writes a
/// storable transform and records a valid player parent, and nothing
/// else changes.
pub proof fn lemma_step_preserves_wf(s: Seq<SpecBody>, ev: ContactEvent)
    requires
        wf_state(s),
    ensures
        wf_state(spec_step(s, ev)),
{
    if spec_qualifies(s, ev) {
        let d = spec_pair(s, ev).0;
        let t = spec_pair(s, ev).1;
        if relative_ok(s[d as int].tf, s[t as int].tf) {
            let s1 = spec_step(s, ev);
            assert forall|i: int| 0 <= i < s1.len() implies #[trigger] body_ok(s1, i) by {
                assert(body_ok(s, i));
                if i == t {
                    assert(body_ok(s, d as int));
                } else {
                    match s[i].mode {
                        Mode::Attached { parent } => {
                            assert(body_ok(s, parent as int));
                            assert(parent != t);
                        },
                        Mode::Independent => {},
                    }
                }
            }
        }
    }
}

/// Any sequence of events keeps every body sound, so by
/// `lemma_wf_is_forest` the attachment relation remains a forest however
/// many contacts are delivered.
pub proof fn lemma_run_preserves_wf(s: Seq<SpecBody>, evs: Seq<ContactEvent>)
    requires
        wf_state(s),
    ensures
        wf_state(spec_run(s, evs)),
    decreases evs.len(),
{
    if evs.len() > 0 {
        lemma_step_preserves_wf(s, evs[0]);
        lemma_run_preserves_wf(spec_step(s, evs[0]), evs.drop_first());
    }
}

/// An event whose two sides carry the same role attaches nothing: two
/// players or two attachable bodies are never glued.
pub proof fn lemma_same_role_ignored(s: Seq<SpecBody>, ev: ContactEvent)
    requires
        ev.a < s.len(),
        ev.b < s.len(),
        s[ev.a as int].role == s[ev.b as int].role,
    ensures
        spec_step(s, ev) == s,
        spec_outcome(s, ev) == AttachOutcome::Ignored,
{
}

/// A `Stopped` event is a no-op: nothing detaches and no mode changes.
pub proof fn lemma_stopped_is_noop(s: Seq<SpecBody>, ev: ContactEvent)
    requires
        ev.phase == Phase::Stopped,
    ensures
        spec_step(s, ev) == s,
        spec_outcome(s, ev) == AttachOutcome::Ignored,
{
}

} // verus!
