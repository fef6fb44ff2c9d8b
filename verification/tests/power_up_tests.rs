use rust_opengl_learn::power_up::{
    count_active_of_type, count_of_type, roll_chance, spawn_kind, is_retained, select_power_ups, EffectState, PowerUpBoost, PowerUpSpawner, PowerUpStatus,
    PowerUpType,
};

#[test]
fn activation_switches_effects() {
    let mut e = EffectState::new();
    assert_eq!(e.activate(PowerUpType::Speed), PowerUpBoost::SpeedUp);
    assert_eq!(e.activate(PowerUpType::PadSizeIncrease), PowerUpBoost::PadGrow);
    assert_eq!(e, EffectState::new());
    assert_eq!(e.activate(PowerUpType::Sticky), PowerUpBoost::Plain);
    assert!(e.sticky);
    e.activate(PowerUpType::PassThrough);
    assert!(e.pass_through);
}

#[test]
fn confuse_and_chaos_exclude_each_other() {
    let mut e = EffectState::new();
    e.activate(PowerUpType::Confuse);
    assert!(e.confuse);
    e.activate(PowerUpType::Chaos);
    assert!(!e.chaos);
    e.deactivate(PowerUpType::Confuse, 1);
    assert!(!e.confuse);
    e.activate(PowerUpType::Chaos);
    assert!(e.chaos);
    e.activate(PowerUpType::Confuse);
    assert!(!e.confuse);
}

#[test]
fn effect_stays_while_another_of_its_kind_is_on_the_field() {
    let mut e = EffectState::new();
    e.activate(PowerUpType::Sticky);
    e.deactivate(PowerUpType::Sticky, 2);
    assert!(e.sticky);
    e.deactivate(PowerUpType::Sticky, 1);
    assert!(!e.sticky);
}

#[test]
fn counting_by_type() {
    let types = vec![PowerUpType::Chaos, PowerUpType::Speed, PowerUpType::Chaos];
    assert_eq!(count_of_type(&types, PowerUpType::Chaos), 2);
    assert_eq!(count_of_type(&types, PowerUpType::Speed), 1);
    assert_eq!(count_of_type(&types, PowerUpType::Sticky), 0);
}

#[test]
fn retention() {
    assert!(is_retained(false, false));
    assert!(is_retained(true, true));
    assert!(is_retained(false, true));
    assert!(!is_retained(true, false));
}

#[test]
fn selection_keeps_order() {
    let r = select_power_ups(&vec![true, false, true, false, false, true]);
    assert_eq!(r, vec![PowerUpType::Speed, PowerUpType::PassThrough, PowerUpType::Chaos]);
    assert!(select_power_ups(&vec![false; 6]).is_empty());
}

#[test]
fn chances_and_durations() {
    assert_eq!(PowerUpType::Speed.spawn_chance(), (1, 75));
    assert_eq!(PowerUpType::Confuse.spawn_chance(), (1, 15));
    assert_eq!(PowerUpType::Sticky.duration_secs(), 20);
    assert_eq!(PowerUpType::PassThrough.duration_secs(), 10);
    assert_eq!(PowerUpType::Chaos.duration_secs(), 15);
    assert_eq!(PowerUpType::PadSizeIncrease.duration_secs(), 0);
}

#[test]
fn spawner_is_deterministic_per_seed() {
    let mut a = PowerUpSpawner::new(0);
    let mut b = PowerUpSpawner::new(0);
    let mut total = 0;
    for _ in 0..200 {
        let ra = a.spawn_power_ups();
        let rb = b.spawn_power_ups();
        assert_eq!(ra, rb);
        total += ra.len();
    }
    // with these chances some power-ups come up over 200 bricks
    assert!(total > 0);
}

#[test]
fn field_step_catch_and_run_out() {
    let mut effects = EffectState::new();
    let mut p = PowerUpStatus::new(PowerUpType::PassThrough);
    assert_eq!(p.field_step(false, false, &mut effects), None);
    assert!(!p.destroyed);
    assert_eq!(p.field_step(false, true, &mut effects), Some(PowerUpBoost::Plain));
    assert!(p.destroyed && p.activated && effects.pass_through);
    assert!(p.is_retained());
    // a power-up off the field is not caught again
    assert_eq!(p.field_step(false, true, &mut effects), None);
    p.run_out(1, &mut effects);
    assert!(!p.activated && !effects.pass_through);
    assert!(!p.is_retained());
}

#[test]
fn field_step_fall_out() {
    let mut effects = EffectState::new();
    let mut p = PowerUpStatus::new(PowerUpType::Speed);
    assert_eq!(p.field_step(true, false, &mut effects), None);
    assert!(p.destroyed && !p.activated);
    assert!(!p.is_retained());
}

#[test]
fn rolls_follow_the_spawn_order() {
    assert_eq!(spawn_kind(0), PowerUpType::Speed);
    assert_eq!(spawn_kind(5), PowerUpType::Chaos);
    assert_eq!(roll_chance(0), (1, 75));
    assert_eq!(roll_chance(3), (1, 75));
    assert_eq!(roll_chance(4), (1, 15));
    assert_eq!(roll_chance(5), (1, 15));
}

#[test]
fn only_active_power_ups_are_counted() {
    let mut caught = PowerUpStatus::new(PowerUpType::Sticky);
    caught.activated = true;
    let falling = PowerUpStatus::new(PowerUpType::Sticky);
    let mut other = PowerUpStatus::new(PowerUpType::Chaos);
    other.activated = true;
    let statuses = vec![caught, falling, other];
    assert_eq!(count_active_of_type(&statuses, PowerUpType::Sticky), 1);
    assert_eq!(count_active_of_type(&statuses, PowerUpType::Chaos), 1);
    assert_eq!(count_active_of_type(&statuses, PowerUpType::Speed), 0);
}

#[test]
fn last_active_sticky_running_out_switches_it_off() {
    let mut effects = EffectState::new();
    let mut caught = PowerUpStatus::new(PowerUpType::Sticky);
    caught.field_step(false, true, &mut effects);
    let falling = PowerUpStatus::new(PowerUpType::Sticky);
    let count = count_active_of_type(&vec![caught, falling], PowerUpType::Sticky);
    caught.run_out(count, &mut effects);
    assert!(!effects.sticky);
}
