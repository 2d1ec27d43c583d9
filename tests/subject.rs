use euphoria::decay::{linear_decay, Decay};
use euphoria::frame::{Command, Update};
use euphoria::subject::{uniform_steps, AttachError, ButtplugUser, Sustain, HOLD_MS};

fn attached(law: Decay, ids: &[u32]) -> ButtplugUser {
    let mut u = ButtplugUser::new(law, 0);
    for id in ids {
        assert_eq!(u.attach(*id, &vec![10, 10]), Ok(None));
    }
    u
}

#[test]
fn sustain_cycle() {
    let mut u = attached(Decay::Linear(4000), &[1, 2]);
    assert_eq!(u.current, None);
    assert_eq!(u.sustain, Sustain::Release);
    u.add_power(300_000_000, 100);
    assert_eq!(u.sustain, Sustain::Rising);
    assert_eq!(u.next_deadline(), Some(0));
    let ups = u.decay_power(100, None);
    assert_eq!(u.sustain, Sustain::Held);
    assert_eq!(u.current, Some(300_000_000));
    assert_eq!(ups.len(), 2);
    assert!(ups.iter().all(|x| x.command == Some(Command::Drive(300_000_000))));
    assert_eq!(u.next_deadline(), Some(100 + HOLD_MS));
    // Still held just before the second is up; nothing is sent.
    assert!(u.decay_power(1099, Some(1)).is_empty());
    assert_eq!(u.sustain, Sustain::Held);
    assert_eq!(u.current, Some(300_000_000));
    // One second after the stimulus the hold ends, with no change of level
    // and no command; every actuator only gets a fresh wake-up.
    let ups = u.decay_power(1100, None);
    assert_eq!(u.sustain, Sustain::Release);
    assert_eq!(u.current, Some(300_000_000));
    assert_eq!(ups.len(), 2);
    assert!(ups.iter().all(|x| x.command.is_none() && x.cancel.is_some() && x.wake.is_some()));
    assert!(u.frames.iter().all(|f| f.timer.is_some()));
    // Normal decay resumes, computed from the law over the elapsed time.
    let d = linear_decay(300_000_000, 400, 4000);
    assert_eq!(d, Some(200_000_000));
    let ups = u.decay_power(1500, None);
    assert_eq!(u.current, Some(200_000_000));
    assert_eq!(ups.len(), 2);
    assert!(ups.iter().all(|x| x.command == Some(Command::Drive(200_000_000))));
}

#[test]
fn linear_decay_to_off_stops_actuators() {
    let mut u = attached(Decay::Linear(4000), &[3]);
    u.add_power(1_000_000_000, 0);
    u.decay_power(0, None);
    u.decay_power(1000, None);
    assert_eq!(u.sustain, Sustain::Release);
    let half = linear_decay(1_000_000_000, 2000, 4000);
    assert_eq!(half, Some(500_000_000));
    u.decay_power(3000, None);
    assert_eq!(u.current, Some(500_000_000));
    let off = linear_decay(500_000_000, 2000, 4000);
    assert_eq!(off, None);
    let ups = u.decay_power(5000, None);
    assert_eq!(u.current, None);
    assert_eq!(ups.len(), 1);
    assert_eq!(ups[0].command, Some(Command::Stop));
    assert_eq!(ups[0].wake, None);
    assert!(ups[0].cancel.is_some());
}

#[test]
fn stimulus_while_held_extends_hold() {
    let mut u = attached(Decay::Linear(4000), &[1]);
    u.add_power(300_000_000, 0);
    u.decay_power(0, None);
    u.add_power(200_000_000, 800);
    assert_eq!(u.sustain, Sustain::Held);
    assert_eq!(u.hold_until, 800 + HOLD_MS);
    assert_eq!(u.pending, 200_000_000);
    assert!(u.decay_power(1000, None).is_empty());
    assert_eq!(u.sustain, Sustain::Held);
    assert_eq!(u.decay_power(1800, None).len(), 1);
    assert_eq!(u.sustain, Sustain::Release);
    // The waiting magnitude is applied by the next rise.
    u.add_power(100_000_000, 2000);
    u.decay_power(2000, None);
    assert_eq!(u.current, Some(600_000_000));
}

#[test]
fn near_zero_decay_is_off() {
    let mut u = attached(Decay::HalfLife(1000), &[1]);
    u.add_power(300_000_000, 0);
    u.decay_power(0, None);
    u.decay_power(1000, None);
    let ups = u.decay_power(2000, Some(10));
    assert_eq!(u.current, None);
    assert_eq!(ups[0].command, Some(Command::Stop));
}

#[test]
fn disconnect_is_idempotent() {
    let mut u = attached(Decay::Linear(4000), &[1, 2, 3]);
    u.add_power(300_000_000, 0);
    u.decay_power(0, None);
    let first = u.disconnect().expect("first disconnect stops");
    assert_eq!(first.len(), 3);
    assert!(first.iter().all(|x| x.command == Some(Command::Stop) && x.cancel.is_some()));
    assert!(!u.connected);
    assert!(u.frames.is_empty());
    assert_eq!(u.disconnect(), None);
    assert_eq!(u.disconnect(), None);
    // Later operations are no-ops.
    u.add_power(300_000_000, 10);
    assert_eq!(u.sustain, Sustain::Release);
    assert!(u.decay_power(20, None).is_empty());
    assert_eq!(u.attach(9, &vec![5]), Ok(None));
    assert!(u.frames.is_empty());
}

#[test]
fn attach_errors() {
    assert_eq!(uniform_steps(&vec![]), Err(AttachError::NotScalar));
    assert_eq!(uniform_steps(&vec![10, 20]), Err(AttachError::NonUniform));
    assert_eq!(uniform_steps(&vec![0, 0]), Err(AttachError::NoLevels));
    assert_eq!(uniform_steps(&vec![20, 20, 20]), Ok(20));
    let mut u = attached(Decay::Linear(4000), &[1]);
    assert_eq!(u.attach(2, &vec![]), Err(AttachError::NotScalar));
    assert_eq!(u.attach(2, &vec![10, 4]), Err(AttachError::NonUniform));
    assert_eq!(u.attach(2, &vec![0]), Err(AttachError::NoLevels));
    assert_eq!(u.attach(1, &vec![10]), Err(AttachError::Duplicate));
    assert_eq!(u.frames.len(), 1);
}

#[test]
fn attach_while_live_drives_at_once() {
    let mut u = attached(Decay::Linear(10_000), &[]);
    u.add_power(950_000_000, 0);
    u.decay_power(0, None);
    let up = u.attach(4, &vec![10]).unwrap().expect("driven at once");
    assert_eq!(up.frame, 4);
    assert_eq!(up.cancel, None);
    assert_eq!(up.command, Some(Command::Drive(950_000_000)));
    let wake = up.wake.unwrap();
    assert_eq!(wake.level, 9);
    assert_eq!(wake.delay_ms, Some(501));
}

#[test]
fn detach_stops_one_frame() {
    let mut u = attached(Decay::Linear(4000), &[1, 2]);
    u.add_power(300_000_000, 0);
    u.decay_power(0, None);
    let up: Update = u.detach(1).unwrap();
    assert_eq!(up.frame, 1);
    assert_eq!(up.command, Some(Command::Stop));
    assert!(up.cancel.is_some());
    assert_eq!(u.frames.len(), 1);
    assert_eq!(u.frames[0].id, 2);
    assert_eq!(u.detach(1), None);
}

#[test]
fn stale_wake_is_ignored() {
    let mut u = attached(Decay::Linear(4000), &[1]);
    u.add_power(300_000_000, 0);
    let first = u.decay_power(0, None);
    let t1 = first[0].wake.unwrap().token;
    let released = u.decay_power(1000, None);
    assert_eq!(released[0].cancel, Some(t1));
    let t2 = released[0].wake.unwrap().token;
    let later = u.decay_power(1500, None);
    assert_eq!(u.current, Some(175_000_000));
    let t3 = later[0].wake.unwrap().token;
    assert_eq!(later[0].cancel, Some(t2));
    assert!(t1 != t2 && t2 != t3 && t1 != t3);
    assert!(u.wake(1, t2, 1600, None).is_empty());
    assert_eq!(u.current, Some(175_000_000));
    assert!(u.wake(7, t3, 1600, None).is_empty());
    let ups = u.wake(1, t3, 1700, None);
    assert_eq!(u.current, Some(125_000_000));
    assert_eq!(ups.len(), 1);
    assert_eq!(ups[0].cancel, None);
    assert_eq!(ups[0].command, Some(Command::Drive(125_000_000)));
    // The spent token does not fire twice.
    assert!(u.wake(1, t3, 1800, None).is_empty());
}

#[test]
fn wake_during_hold_is_rearmed_at_release() {
    let mut u = attached(Decay::Linear(2000), &[1]);
    u.add_power(300_000_000, 0);
    let ups = u.decay_power(0, None);
    let w = ups[0].wake.unwrap();
    assert_eq!(w.delay_ms, Some(201));
    // The crossing comes during the hold: decay is suspended, nothing is sent.
    assert!(u.wake(1, w.token, 201, None).is_empty());
    assert_eq!(u.frames[0].timer, None);
    assert_eq!(u.current, Some(300_000_000));
    // The hold ends: no command, the frame is only armed again.
    let ups = u.decay_power(1000, None);
    assert_eq!(ups.len(), 1);
    assert_eq!(ups[0].command, None);
    assert_eq!(ups[0].cancel, None);
    let w = ups[0].wake.unwrap();
    assert_eq!(u.frames[0].timer, Some(w.token));
    // Its wake-up decays the level by the elapsed time.
    let ups = u.wake(1, w.token, 1201, None);
    assert_eq!(u.current, Some(199_500_000));
    assert_eq!(ups[0].command, Some(Command::Drive(199_500_000)));
    assert!(u.frames[0].timer.is_some());
}

#[test]
fn half_life_result_never_raises_the_level() {
    let mut u = attached(Decay::HalfLife(1000), &[1]);
    u.add_power(100_000_000, 0);
    u.decay_power(0, None);
    u.decay_power(1000, None);
    let ups = u.decay_power(2000, Some(1_000_000_000));
    assert_eq!(u.current, Some(100_000_000));
    assert_eq!(ups[0].command, Some(Command::Drive(100_000_000)));
}

#[test]
fn half_life_takes_the_callers_result() {
    let mut u = attached(Decay::HalfLife(1000), &[1]);
    u.add_power(800_000_000, 0);
    u.decay_power(0, None);
    u.decay_power(1000, None);
    let ups = u.decay_power(2000, Some(400_000_000));
    assert_eq!(u.current, Some(400_000_000));
    assert_eq!(ups[0].command, Some(Command::Drive(400_000_000)));
    assert_eq!(ups[0].wake.unwrap().delay_ms, None);
}

#[test]
fn stop_keeps_actuators_bound() {
    let mut u = attached(Decay::Linear(4000), &[1, 2]);
    u.add_power(300_000_000, 0);
    u.decay_power(0, None);
    let ups = u.stop();
    assert_eq!(ups.len(), 2);
    assert!(ups.iter().all(|x| x.command == Some(Command::Stop)));
    assert_eq!(u.current, None);
    assert_eq!(u.frames.len(), 2);
    assert!(u.frames.iter().all(|f| f.timer.is_none() && f.level.is_none()));
    assert!(u.connected);
}

#[test]
fn voice_praisers_saturate() {
    let mut u = ButtplugUser::new(Decay::Linear(1000), 0);
    u.bump_voice_praisers(false);
    assert_eq!(u.voice_praisers, 0);
    u.bump_voice_praisers(true);
    u.bump_voice_praisers(true);
    u.bump_voice_praisers(false);
    assert_eq!(u.voice_praisers, 1);
}

#[test]
fn set_law_decays_then_reschedules() {
    let mut u = attached(Decay::Linear(4000), &[1]);
    u.add_power(800_000_000, 0);
    u.decay_power(0, None);
    u.decay_power(1000, None);
    // The old law (4 s linear) first takes the level down over the last second.
    let ups = u.set_law(Decay::Linear(10_000), 2000, None);
    assert_eq!(u.law, Decay::Linear(10_000));
    assert_eq!(u.current, Some(550_000_000));
    assert_eq!(u.last_tick, 2000);
    assert_eq!(ups.len(), 1);
    let wake = ups[0].wake.unwrap();
    assert_eq!(wake.level, 5);
    assert_eq!(wake.delay_ms, Some(501));
}
