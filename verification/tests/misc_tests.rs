use bevy_mod_scripting_lua_rs::clock::host_unix_time;
use bevy_mod_scripting_lua_rs::draw::rect_from_args;
use bevy_mod_scripting_lua_rs::reflect::lookup_order;
use bevy_mod_scripting_lua_rs::ticks::{next_tick, TickPlan};

#[test]
fn unix_seconds_cases() {
    assert_eq!(host_unix_time(None), 0);
    assert_eq!(host_unix_time(Some(1_725_029_869)), 1_725_029_869);
    assert_eq!(host_unix_time(Some(u64::MAX)), -1);
    assert_eq!(host_unix_time(Some(i64::MAX as u64)), i64::MAX);
}

#[test]
fn rect_needs_seven_args() {
    assert!(rect_from_args(&vec![1.0f64, 2.0, 3.0, 4.0, 5.0, 6.0]).is_none());
    let c = rect_from_args(&vec![1.0f64, 2.0, 3.0, 4.0, 0.1, 0.2, 0.3, 99.0]).unwrap();
    assert_eq!((c.x, c.y, c.w, c.h, c.r, c.g, c.b), (1.0, 2.0, 3.0, 4.0, 0.1, 0.2, 0.3));
    assert!(rect_from_args::<f64>(&vec![]).is_none());
}

#[test]
fn lookup_order_cases() {
    assert_eq!(lookup_order(Some(5u32), 9u32), vec![5, 9]);
    assert_eq!(lookup_order(None, 9u32), vec![9]);
}

#[test]
fn tick_schedule() {
    let plan = TickPlan { sample_every: Some(10), event_at: Some(20), finish_after: Some(50) };
    let s = next_tick(&plan, 0);
    assert_eq!((s.tick, s.sample, s.event, s.finish), (1, false, false, false));
    let s = next_tick(&plan, 19);
    assert_eq!((s.tick, s.sample, s.event, s.finish), (20, true, true, false));
    let s = next_tick(&plan, 50);
    assert_eq!((s.tick, s.sample, s.event, s.finish), (51, false, false, true));
    let s = next_tick(&plan, 59);
    assert_eq!((s.tick, s.sample, s.event, s.finish), (60, true, false, true));
    let quiet = TickPlan { sample_every: None, event_at: None, finish_after: None };
    let s = next_tick(&quiet, 99);
    assert_eq!((s.tick, s.sample, s.event, s.finish), (100, false, false, false));
}
