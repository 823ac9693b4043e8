use ubat::config_bridge::SettingValue;
use ubat::session::{CombatSystem, InterestManager, NetworkRole, NetworkSystem, PlayerManager, Position, ReplicationSystem, ReplicationType};
use ubat::error_log::{ErrorLogger, ErrorSeverity};

#[test]
fn replication_sends_each_change_once() {
    let mut r = ReplicationSystem::new();
    r.register_object(1, ReplicationType::Full, Position { x: 0, y: 0, z: 0 });
    r.register_object(2, ReplicationType::Full, Position { x: 0, y: 0, z: 0 });
    r.update_property(1, "hp", SettingValue::Int(10));
    r.update_property(1, "hp", SettingValue::Int(12));
    let updates = r.send_updates();
    assert_eq!(updates.len(), 1);
    assert_eq!(updates[0].object_id, 1);
    assert!(r.send_updates().is_empty());
}

#[test]
fn updates_go_only_to_interested_clients() {
    let mut r = ReplicationSystem::new();
    r.update_player_position(7, Position { x: 0, y: 0, z: 0 });
    r.set_interest_radius(7, 10);
    r.update_player_position(8, Position { x: 100, y: 0, z: 0 });
    r.set_interest_radius(8, 10);
    r.register_object(1, ReplicationType::Delta, Position { x: 3, y: 4, z: 0 });
    r.register_object(2, ReplicationType::Delta, Position { x: 500, y: 0, z: 0 });
    r.update_property(1, "hp", SettingValue::Int(5));
    r.update_property(2, "hp", SettingValue::Int(6));
    let updates = r.send_updates();
    assert_eq!(updates.len(), 2);
    for u in &updates {
        if u.object_id == 1 {
            assert_eq!(u.clients, vec![7]);
        } else {
            assert_eq!(u.object_id, 2);
            assert!(u.clients.is_empty());
        }
    }
    r.move_object(1, Position { x: 98, y: 0, z: 0 });
    r.update_property(1, "hp", SettingValue::Int(4));
    let updates = r.send_updates();
    assert_eq!(updates.len(), 1);
    assert_eq!(updates[0].clients, vec![8]);
    assert!(r.send_updates().is_empty());
}

#[test]
fn interest_by_distance() {
    let mut m = InterestManager::new();
    m.update_player_position(7, Position { x: 0, y: 0, z: 0 });
    m.set_interest_radius(7, 10);
    m.update_player_position(8, Position { x: 100, y: 0, z: 0 });
    m.set_interest_radius(8, 5);
    assert!(m.is_client_interested(7, Position { x: 6, y: 8, z: 0 }));
    assert!(!m.is_client_interested(7, Position { x: 6, y: 9, z: 0 }));
    assert!(!m.is_client_interested(9, Position { x: 0, y: 0, z: 0 }));
    assert_eq!(m.get_interested_clients(Position { x: 98, y: 0, z: 3 }), vec![8]);
}

#[test]
fn players_are_spawned_and_found() {
    let mut p = PlayerManager::new(1, NetworkRole::Host);
    let spawned = p.spawn_player(3, Position { x: 1, y: 2, z: 3 });
    assert_eq!(spawned.id, 3);
    assert_eq!(p.get_player(3).map(|q| q.position), Some(Position { x: 1, y: 2, z: 3 }));
    assert!(p.get_player(4).is_none());
}

#[test]
fn rpc_outbox_keeps_order() {
    let mut n = NetworkSystem::new(NetworkRole::Client);
    n.send_to_host("ping", &[SettingValue::Int(1)]);
    n.broadcast_rpc("wave", &[]);
    let msgs = n.take_outbox();
    assert_eq!(msgs.len(), 2);
    assert!(n.take_outbox().is_empty());
}

#[test]
fn error_log_keeps_the_newest() {
    let mut l = ErrorLogger::new(2);
    l.log_error("a", "first", ErrorSeverity::Warning, None);
    l.log_error("b", "second", ErrorSeverity::Error, None);
    l.log_error("c", "third", ErrorSeverity::Error, Some("ctx".to_string()));
    let logs = l.get_logs();
    assert_eq!(logs.len(), 2);
    assert_eq!(logs[0].message, "second");
    assert_eq!(logs[1].context.as_deref(), Some("ctx"));
    assert_eq!(l.get_logs_by_severity(ErrorSeverity::Error).len(), 2);
    l.clear_logs();
    assert_eq!(l.get_logs().len(), 0);
}

#[test]
fn hits_within_weapon_range_are_valid() {
    let c = CombatSystem::new(NetworkRole::Host);
    assert!(c.validate_hit(Position { x: 0, y: 0, z: 0 }, Position { x: 3, y: 4, z: 0 }, 5));
    assert!(!c.validate_hit(Position { x: 0, y: 0, z: 0 }, Position { x: 3, y: 4, z: 1 }, 5));
}

#[test]
fn log_entries_carry_a_nanosecond_timestamp() {
    let mut l = ErrorLogger::new(4);
    l.log_error("a", "first", ErrorSeverity::Warning, None);
    let logs = l.get_logs();
    assert!(logs[0].timestamp.nanoseconds < 1_000_000_000);
    assert!(logs[0].timestamp.seconds > 0);
}
