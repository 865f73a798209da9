use attach_core::intent::movement_intent;
use attach_core::registry::AttachError;
use attach_core::registry::AttachOutcome;
use attach_core::registry::BodyRegistry;
use attach_core::registry::ContactEvent;
use attach_core::registry::Mode;
use attach_core::registry::Phase;
use attach_core::registry::Role;
use attach_core::transform::Transform;
use attach_core::transform::TransformError;
use attach_core::transform::COORD_LIMIT;

fn translation(x: i64, y: i64, z: i64) -> Transform {
    Transform::from_translation(x, y, z).unwrap()
}

fn started(a: usize, b: usize) -> ContactEvent {
    ContactEvent { a, b, phase: Phase::Started }
}

#[test]
fn identity_composes_as_neutral() {
    let id = Transform::identity();
    let t = translation(7, -2, 3);
    let left = id.compose(&t).unwrap();
    let right = t.compose(&id).unwrap();
    assert!(left.same_pose(&t));
    assert!(right.same_pose(&t));
    assert_eq!(left.tx, 7);
    assert_eq!(left.ty, -2);
    assert_eq!(left.tz, 3);
    assert_eq!(left.den, 1);
}

#[test]
fn translations_compose_by_addition() {
    let a = translation(10, 0, 0);
    let b = translation(5, 0, 0);
    let c = a.compose(&b).unwrap();
    assert_eq!(c.tx, 15);
    assert_eq!(c.ty, 0);
    assert_eq!(c.tz, 0);
    assert_eq!(c.den, 1);
}

#[test]
fn inverse_of_translation_negates() {
    let t = translation(5, -4, 9);
    let inv = t.inverse().unwrap();
    assert_eq!(inv.tx, -5);
    assert_eq!(inv.ty, 4);
    assert_eq!(inv.tz, -9);
    assert_eq!(inv.den, 1);
    let round = t.compose(&inv).unwrap();
    assert!(round.same_pose(&Transform::identity()));
}

#[test]
fn inverse_of_rotation_round_trips() {
    // rotation in the xy plane by the 3-4-5 angle, z scaled by 1
    let rot = Transform::new(4, -3, 0, 3, 4, 0, 0, 0, 5, 2, 1, 0, 5).unwrap();
    let inv = rot.inverse().unwrap();
    let round = rot.compose(&inv).unwrap();
    assert!(round.same_pose(&Transform::identity()));
}

#[test]
fn relative_transform_restores_child_pose() {
    let parent = Transform::new(4, -3, 0, 3, 4, 0, 0, 0, 5, 2, 1, 0, 5).unwrap();
    let child = Transform::new(0, -1, 0, 1, 0, 0, 0, 0, 1, 8, -3, 2, 1).unwrap();
    let rel = attach_core::transform::relative_transform(&parent, &child).unwrap();
    let restored = parent.compose(&rel).unwrap();
    assert!(restored.same_pose(&child));
}

#[test]
fn singular_parent_is_refused() {
    let flat = Transform::new(1, 0, 0, 0, 1, 0, 0, 0, 0, 0, 0, 0, 1).unwrap();
    assert_eq!(flat.inverse().unwrap_err(), TransformError::NonInvertible);
    let child = translation(1, 2, 3);
    let r = attach_core::transform::relative_transform(&flat, &child);
    assert_eq!(r.unwrap_err(), TransformError::NonInvertible);
}

#[test]
fn oversized_result_is_refused() {
    let far = translation(COORD_LIMIT, 0, 0);
    let also_far = translation(COORD_LIMIT, 0, 0);
    let r = far.compose(&also_far);
    assert_eq!(r.unwrap_err(), TransformError::Overflow);
}

#[test]
fn attach_preserves_world_pose_scenario() {
    // driver at the identity, target translated by (5, 0, 0)
    let mut reg = BodyRegistry::new();
    let driver = reg.spawn(Role::Player, Transform::identity());
    let target = reg.spawn(Role::Attachable, translation(5, 0, 0));
    let outcome = reg.process_event(&started(driver, target));
    assert_eq!(outcome, AttachOutcome::Attached { driver, target });
    // the resolved relative transform is the translation (5, 0, 0)
    let rel = reg.transform_of(target);
    assert!(rel.same_pose(&translation(5, 0, 0)));
    assert_eq!(reg.mode_of(target), Mode::Attached { parent: driver });
    // moving the driver to (10, 0, 0) carries the target to (15, 0, 0)
    reg.set_transform(driver, translation(10, 0, 0));
    let world = reg.world_transform(target).unwrap();
    assert!(world.same_pose(&translation(15, 0, 0)));
}

#[test]
fn second_delivery_of_same_event_is_ignored() {
    let mut reg = BodyRegistry::new();
    let driver = reg.spawn(Role::Player, Transform::identity());
    let target = reg.spawn(Role::Attachable, translation(5, 0, 0));
    let ev = started(driver, target);
    assert_eq!(reg.process_event(&ev), AttachOutcome::Attached { driver, target });
    let rel_before = reg.transform_of(target);
    assert_eq!(reg.process_event(&ev), AttachOutcome::Ignored);
    assert_eq!(reg.mode_of(target), Mode::Attached { parent: driver });
    assert!(reg.transform_of(target).same_pose(&rel_before));
}

#[test]
fn already_attached_target_keeps_first_parent() {
    let mut reg = BodyRegistry::new();
    let first = reg.spawn(Role::Player, Transform::identity());
    let target = reg.spawn(Role::Attachable, translation(5, 0, 0));
    let second = reg.spawn(Role::Player, translation(1, 1, 1));
    assert_eq!(
        reg.process_event(&started(first, target)),
        AttachOutcome::Attached { driver: first, target },
    );
    // a later qualifying-looking event from another player changes nothing
    assert_eq!(reg.process_event(&started(second, target)), AttachOutcome::Ignored);
    assert_eq!(reg.mode_of(target), Mode::Attached { parent: first });
}

#[test]
fn same_role_pairs_are_ignored() {
    let mut reg = BodyRegistry::new();
    let p1 = reg.spawn(Role::Player, Transform::identity());
    let p2 = reg.spawn(Role::Player, translation(1, 0, 0));
    let a1 = reg.spawn(Role::Attachable, translation(2, 0, 0));
    let a2 = reg.spawn(Role::Attachable, translation(3, 0, 0));
    assert_eq!(reg.process_event(&started(p1, p2)), AttachOutcome::Ignored);
    assert_eq!(reg.process_event(&started(a1, a2)), AttachOutcome::Ignored);
    assert_eq!(reg.mode_of(p2), Mode::Independent);
    assert_eq!(reg.mode_of(a1), Mode::Independent);
    assert_eq!(reg.mode_of(a2), Mode::Independent);
}

#[test]
fn stopped_events_change_nothing() {
    let mut reg = BodyRegistry::new();
    let driver = reg.spawn(Role::Player, Transform::identity());
    let target = reg.spawn(Role::Attachable, translation(5, 0, 0));
    let ev = ContactEvent { a: driver, b: target, phase: Phase::Stopped };
    assert_eq!(reg.process_event(&ev), AttachOutcome::Ignored);
    assert_eq!(reg.mode_of(target), Mode::Independent);
    assert_eq!(reg.mode_of(driver), Mode::Independent);
}

#[test]
fn event_order_in_a_pair_does_not_matter() {
    let mut reg = BodyRegistry::new();
    let driver = reg.spawn(Role::Player, Transform::identity());
    let target = reg.spawn(Role::Attachable, translation(5, 0, 0));
    // the attachable body is named first: the player is still the driver
    assert_eq!(
        reg.process_event(&started(target, driver)),
        AttachOutcome::Attached { driver, target },
    );
}

#[test]
fn dangling_driver_leaves_target_independent() {
    let mut reg = BodyRegistry::new();
    let _driver = reg.spawn(Role::Player, Transform::identity());
    let target = reg.spawn(Role::Attachable, translation(5, 0, 0));
    let r = reg.attach(99, target);
    assert_eq!(r.unwrap_err(), AttachError::DanglingParent);
    assert_eq!(reg.mode_of(target), Mode::Independent);
}

#[test]
fn singular_driver_fails_without_attaching() {
    let mut reg = BodyRegistry::new();
    let flat = Transform::new(1, 0, 0, 0, 1, 0, 0, 0, 0, 0, 0, 0, 1).unwrap();
    let driver = reg.spawn(Role::Player, flat);
    let target = reg.spawn(Role::Attachable, translation(5, 0, 0));
    assert_eq!(
        reg.process_event(&started(driver, target)),
        AttachOutcome::Failed { error: AttachError::MalformedTransform },
    );
    assert_eq!(reg.mode_of(target), Mode::Independent);
}

#[test]
fn unknown_handles_do_not_qualify() {
    let mut reg = BodyRegistry::new();
    let driver = reg.spawn(Role::Player, Transform::identity());
    assert_eq!(reg.process_event(&started(driver, 7)), AttachOutcome::Ignored);
    assert!(reg.classify_event(&started(5, 6)).is_none());
}

#[test]
fn batch_applies_events_in_order() {
    let mut reg = BodyRegistry::new();
    let driver = reg.spawn(Role::Player, Transform::identity());
    let t1 = reg.spawn(Role::Attachable, translation(5, 0, 0));
    let t2 = reg.spawn(Role::Attachable, translation(0, 8, 0));
    let events = vec![
        started(driver, t1),
        started(driver, t1),
        ContactEvent { a: driver, b: t2, phase: Phase::Stopped },
        started(t2, driver),
    ];
    reg.process_batch(&events);
    assert_eq!(reg.mode_of(t1), Mode::Attached { parent: driver });
    assert_eq!(reg.mode_of(t2), Mode::Attached { parent: driver });
    assert_eq!(reg.mode_of(driver), Mode::Independent);
}

#[test]
fn movement_intent_sums_unit_contributions() {
    let rest = movement_intent(false, false, false, false);
    assert_eq!((rest.x, rest.y), (0, 0));
    let diagonal = movement_intent(false, true, true, false);
    assert_eq!((diagonal.x, diagonal.y), (1, 1));
    let opposed = movement_intent(true, true, false, true);
    assert_eq!((opposed.x, opposed.y), (0, -1));
    let left_down = movement_intent(true, false, false, true);
    assert_eq!((left_down.x, left_down.y), (-1, -1));
}
