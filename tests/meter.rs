use meter::meter::Meter;
use meter::player::Player;
use meter::session::{PlayerStatistics, Session, DPS};

fn stats_of(meter: &Meter, name: &str) -> PlayerStatistics {
    let stats = meter.get_instance_session().unwrap();
    stats.into_iter().find(|s| s.player == name).unwrap()
}

#[test]
fn test_meter() {
    let mut meter = Meter::new();

    assert_eq!(meter.get_instance_session(), None);

    meter.register_main_player("name", 0);

    assert!(meter.get_instance_session().is_some());
    assert_eq!(meter.get_instance_session().unwrap()[0].player, "name".to_owned());
}

#[test]
fn empty_meter_has_no_session() {
    let meter = Meter::new();
    assert_eq!(meter.get_instance_session(), None);
    assert_eq!(meter.session_count(), 0);
}

#[test]
fn main_player_alone_has_zero_stats() {
    let mut meter = Meter::new();
    meter.register_main_player("name", 0);
    let stats = meter.get_instance_session().unwrap();
    assert_eq!(stats.len(), 1);
    assert_eq!(stats[0].player, "name");
    assert_eq!(stats[0].damage, 0);
    assert_eq!(stats[0].time_in_combat, 0);
    assert_eq!(stats[0].dps.value(), 0);
}

#[test]
fn main_leave_starts_empty_session() {
    let mut meter = Meter::new();
    meter.register_main_player("A", 0);
    meter.register_player("B", 1);
    assert_eq!(meter.register_leave(0), Some(()));
    assert_eq!(meter.session_count(), 2);
    assert_eq!(meter.get_instance_session(), Some(vec![]));
    assert_eq!(meter.register_damage_dealt(1, -10), None);
}

#[test]
fn other_leave_keeps_session() {
    let mut meter = Meter::new();
    meter.register_main_player("A", 0);
    meter.register_player("B", 1);
    assert_eq!(meter.register_leave(1), Some(()));
    assert_eq!(meter.register_leave(7), Some(()));
    assert_eq!(meter.session_count(), 1);
    assert_eq!(meter.get_instance_session().unwrap().len(), 2);
}

#[test]
fn leave_before_main_player_is_absent() {
    let mut meter = Meter::new();
    meter.register_player("B", 1);
    assert_eq!(meter.register_leave(1), None);
    assert_eq!(meter.session_count(), 1);
}

#[test]
fn only_negative_damage_counts() {
    let mut meter = Meter::new();
    meter.register_main_player("A", 0);
    for d in [-5, 7, -20, 0, -1, 100] {
        assert_eq!(meter.register_damage_dealt(0, d), Some(()));
    }
    assert_eq!(stats_of(&meter, "A").damage, 26);
}

#[test]
fn damage_order_does_not_matter() {
    let mut a = Meter::new();
    let mut b = Meter::new();
    a.register_main_player("A", 0);
    b.register_main_player("A", 0);
    for d in [-3, 9, -40, -7] {
        a.register_damage_dealt(0, d);
    }
    for d in [-7, -40, 9, -3] {
        b.register_damage_dealt(0, d);
    }
    assert_eq!(stats_of(&a, "A").damage, 50);
    assert_eq!(a.get_instance_session(), b.get_instance_session());
}

#[test]
fn most_negative_damage_counts_its_magnitude() {
    let mut meter = Meter::new();
    meter.register_main_player("A", 0);
    meter.register_damage_dealt(0, i64::MIN);
    assert_eq!(stats_of(&meter, "A").damage, 1u64 << 63);
    meter.register_damage_dealt(0, i64::MIN);
    meter.register_damage_dealt(0, -1);
    assert_eq!(stats_of(&meter, "A").damage, u64::MAX);
}

#[test]
fn damage_for_unknown_player_is_absent() {
    let mut meter = Meter::new();
    assert_eq!(meter.register_damage_dealt(0, -5), None);
    meter.register_main_player("A", 0);
    assert_eq!(meter.register_damage_dealt(3, -5), None);
    assert_eq!(stats_of(&meter, "A").damage, 0);
}

#[test]
fn combat_interval_adds_elapsed_time() {
    let mut meter = Meter::new();
    meter.register_main_player("A", 0);
    assert_eq!(meter.register_combat_enter_at(0, 10_000), Some(()));
    assert_eq!(meter.register_combat_leave_at(0, 12_500), Some(()));
    assert_eq!(stats_of(&meter, "A").time_in_combat, 2_500);
    assert_eq!(meter.register_combat_leave_at(0, 20_000), Some(()));
    assert_eq!(stats_of(&meter, "A").time_in_combat, 2_500);
    meter.register_combat_enter_at(0, 30_000);
    meter.register_combat_leave_at(0, 30_400);
    assert_eq!(stats_of(&meter, "A").time_in_combat, 2_900);
}

#[test]
fn duplicate_enter_keeps_interval_start() {
    let mut meter = Meter::new();
    meter.register_main_player("A", 0);
    meter.register_combat_enter_at(0, 1_000);
    meter.register_combat_enter_at(0, 1_800);
    meter.register_combat_leave_at(0, 2_000);
    assert_eq!(stats_of(&meter, "A").time_in_combat, 1_000);
}

#[test]
fn clock_going_back_adds_nothing() {
    let mut meter = Meter::new();
    meter.register_main_player("A", 0);
    meter.register_combat_enter_at(0, 5_000);
    meter.register_combat_leave_at(0, 4_000);
    assert_eq!(stats_of(&meter, "A").time_in_combat, 0);
}

#[test]
fn combat_events_for_unknown_player_are_absent() {
    let mut meter = Meter::new();
    assert_eq!(meter.register_combat_enter_at(0, 1), None);
    assert_eq!(meter.register_combat_leave_at(0, 2), None);
    meter.register_main_player("A", 0);
    assert_eq!(meter.register_combat_enter_at(4, 1), None);
    assert_eq!(meter.register_combat_leave(4), None);
    assert_eq!(meter.register_combat_enter(4), None);
}

#[test]
fn combat_on_the_clock() {
    let mut meter = Meter::new();
    meter.register_main_player("A", 0);
    assert_eq!(meter.register_combat_enter(0), Some(()));
    assert_eq!(meter.register_combat_leave(0), Some(()));
    assert!(stats_of(&meter, "A").time_in_combat < 60_000);
}

#[test]
fn reregistering_resets_player() {
    let mut meter = Meter::new();
    meter.register_main_player("A", 0);
    meter.register_damage_dealt(0, -30);
    meter.register_combat_enter_at(0, 0);
    meter.register_combat_leave_at(0, 500);
    assert_eq!(stats_of(&meter, "A").damage, 30);
    meter.register_player("A", 0);
    let stats = meter.get_instance_session().unwrap();
    assert_eq!(stats.len(), 1);
    assert_eq!(stats[0].damage, 0);
    assert_eq!(stats[0].time_in_combat, 0);
    assert_eq!(meter.session_count(), 1);
}

#[test]
fn reregistering_main_player_overwrites_id() {
    let mut meter = Meter::new();
    meter.register_main_player("A", 0);
    meter.register_main_player("A", 5);
    assert_eq!(meter.register_leave(0), Some(()));
    assert_eq!(meter.session_count(), 1);
    assert_eq!(meter.register_leave(5), Some(()));
    assert_eq!(meter.session_count(), 2);
}

#[test]
fn main_player_joins_existing_session() {
    let mut meter = Meter::new();
    meter.register_player("B", 1);
    meter.register_main_player("A", 0);
    assert_eq!(meter.session_count(), 1);
    let names: Vec<String> = meter.get_instance_session().unwrap().into_iter().map(|s| s.player).collect();
    assert_eq!(names, vec!["B".to_owned(), "A".to_owned()]);
}

#[test]
fn open_interval_is_dropped_at_session_end() {
    let mut meter = Meter::new();
    meter.register_main_player("A", 0);
    meter.register_damage_dealt(0, -10);
    meter.register_combat_enter_at(0, 1_000);
    meter.register_leave(0);
    assert_eq!(meter.register_combat_leave_at(0, 3_000), None);
    meter.register_main_player("A", 0);
    meter.register_combat_leave_at(0, 3_000);
    let a = stats_of(&meter, "A");
    assert_eq!(a.damage, 0);
    assert_eq!(a.time_in_combat, 0);
}

#[test]
fn end_to_end_scenario() {
    let mut meter = Meter::new();
    meter.register_main_player("A", 0);
    meter.register_player("B", 1);
    meter.register_damage_dealt(0, -50);
    meter.register_combat_enter_at(0, 1_000);
    meter.register_combat_leave_at(0, 2_000);
    let a = stats_of(&meter, "A");
    assert_eq!(a.damage, 50);
    assert_eq!(a.time_in_combat, 1_000);
    assert_eq!(a.dps.value(), 50);
    let b = stats_of(&meter, "B");
    assert_eq!(b.damage, 0);
    assert_eq!(b.time_in_combat, 0);
    assert_eq!(b.dps.value(), 0);
}

#[test]
fn dps_rounds_down_and_is_zero_without_time() {
    assert_eq!(DPS::new(50, 1_000).value(), 50);
    assert_eq!(DPS::new(10, 3_000).value(), 3);
    assert_eq!(DPS::new(7, 0).value(), 0);
    assert_eq!(DPS::new(u64::MAX, 1).value(), u64::MAX as u128 * 1000);
}

#[test]
fn session_add_and_lookup() {
    let mut session = Session::new();
    session.add_player("A", 3);
    session.add_player("B", 4);
    assert_eq!(session.len(), 2);
    assert_eq!(session.get_player_by_id(4), Some(1));
    assert_eq!(session.get_player_by_id(9), None);
    let mut p = session.player(0);
    p.register_damage_dealt(12);
    session.set_player(0, p);
    assert_eq!(session.stats()[0].damage, 12);
    session.add_player("A", 8);
    assert_eq!(session.len(), 2);
    assert_eq!(session.get_player_by_id(3), None);
    assert_eq!(session.get_player_by_id(8), Some(0));
    assert_eq!(session.stats()[0].damage, 0);
}

#[test]
fn player_accumulates() {
    let mut p = Player::new(2);
    assert_eq!(p.id(), 2);
    assert!(!p.is_in_combat());
    p.enter_combat_at(100);
    assert!(p.is_in_combat());
    p.leave_combat_at(350);
    assert!(!p.is_in_combat());
    p.leave_combat_at(900);
    assert_eq!(p.get_time_elapsed(), 250);
    p.register_damage_dealt(5);
    p.register_damage_dealt(u64::MAX);
    assert_eq!(p.get_damage_dealt(), u64::MAX);
    p.enter_combat();
    p.leave_combat();
    assert!(p.get_time_elapsed() >= 250);
}
