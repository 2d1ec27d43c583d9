use euphoria::presence::{Adjustment, Voicecall};

#[test]
fn activity_reaches_every_other_subject_once() {
    let mut vc = Voicecall::new();
    vc.join(10, 1);
    vc.join(11, 2);
    vc.join(12, 3);
    vc.join(13, 2);
    let r = vc.activity(10, true);
    assert_eq!(
        r,
        vec![Adjustment { subject: 2, up: true }, Adjustment { subject: 3, up: true }]
    );
    let r = vc.activity(11, false);
    assert_eq!(
        r,
        vec![Adjustment { subject: 1, up: false }, Adjustment { subject: 3, up: false }]
    );
}

#[test]
fn unknown_source_is_a_no_op() {
    let mut vc = Voicecall::new();
    vc.join(10, 1);
    assert!(vc.activity(99, true).is_empty());
    vc.leave(99);
    assert_eq!(vc.bindings.len(), 1);
}

#[test]
fn rebinding_replaces_in_place() {
    let mut vc = Voicecall::new();
    vc.join(10, 1);
    vc.join(11, 2);
    vc.join(10, 5);
    assert_eq!(vc.bindings, vec![(10, 5), (11, 2)]);
    assert_eq!(vc.resolve(10), Some(5));
    assert_eq!(vc.activity(11, true), vec![Adjustment { subject: 5, up: true }]);
}

#[test]
fn leave_removes_binding() {
    let mut vc = Voicecall::new();
    vc.join(10, 1);
    vc.join(11, 2);
    vc.leave(10);
    assert_eq!(vc.resolve(10), None);
    assert!(vc.activity(10, true).is_empty());
    assert!(vc.activity(11, true).is_empty());
}

#[test]
fn active_sources_are_counted_once() {
    let mut vc = Voicecall::new();
    vc.join(10, 1);
    vc.join(11, 2);
    assert_eq!(vc.active_count(), 0);
    vc.activity(10, true);
    vc.activity(10, true);
    vc.activity(11, true);
    assert_eq!(vc.active_count(), 2);
    vc.activity(10, false);
    assert_eq!(vc.active_count(), 1);
    vc.activity(99, true);
    assert_eq!(vc.active_count(), 1);
    vc.leave(11);
    assert_eq!(vc.active_count(), 0);
}
