//! Registry behaviour: one service per channel, supervisor bookkeeping on
//! service exits, and the persistence round trip.

use mcbridge::monitor::handle_service_exit;
use mcbridge::monitor::select_monitor_type;
use mcbridge::monitor::service_step;
use mcbridge::monitor::CycleEvent;
use mcbridge::monitor::CycleStep;
use mcbridge::monitor::MonitorParameter;
use mcbridge::monitor::MonitorDescriptor;
use mcbridge::monitor::MonitorType;
use mcbridge::monitor::RegistryError;
use mcbridge::monitor::ServiceExit;
use mcbridge::monitor::ServiceRegistry;
use mcbridge::persist::decode_registry;

fn status_descriptor(channel: u64, name: &str) -> MonitorDescriptor {
    MonitorDescriptor {
        channel_id: channel,
        monitor_type: MonitorType::Status {
            name: name.to_string(),
            host: "localhost".to_string(),
            port: 25565,
            mid: 900 + channel,
        },
    }
}

#[test]
fn the_status_parameter_selects_a_status_monitor() {
    let t = select_monitor_type(
        MonitorParameter::Status,
        "Name".to_string(),
        "host".to_string(),
        25565,
        77,
    );
    match t {
        MonitorType::Status { name, host, port, mid } => {
            assert_eq!(name, "Name");
            assert_eq!(host, "host");
            assert_eq!(port, 25565);
            assert_eq!(mid, 77);
        }
        _ => panic!("the status parameter must select the status variant"),
    }
}

#[test]
fn start_rejects_an_occupied_channel_until_it_is_stopped() {
    let mut registry = ServiceRegistry::new();
    assert!(registry.start(status_descriptor(10, "one")).is_ok());
    assert_eq!(
        registry.start(status_descriptor(10, "two")).unwrap_err(),
        RegistryError::AlreadyExists
    );
    assert!(registry.contains_channel(10));

    assert!(registry.stop(10).is_ok());
    assert!(!registry.contains_channel(10));
    assert!(registry.start(status_descriptor(10, "two")).is_ok());
    assert_eq!(registry.len(), 1);
}

#[test]
fn stop_without_a_service_is_not_found() {
    let mut registry = ServiceRegistry::new();
    assert_eq!(registry.stop(99).unwrap_err(), RegistryError::NotFound);
    assert!(registry.start(status_descriptor(1, "a")).is_ok());
    assert_eq!(registry.stop(2).unwrap_err(), RegistryError::NotFound);
    assert_eq!(registry.len(), 1);
}

#[test]
fn stop_keeps_the_other_services() {
    let mut registry = ServiceRegistry::new();
    for ch in [1u64, 2, 3] {
        assert!(registry.start(status_descriptor(ch, "svc")).is_ok());
    }
    assert!(registry.stop(2).is_ok());
    assert_eq!(registry.len(), 2);
    assert!(registry.contains_channel(1));
    assert!(!registry.contains_channel(2));
    assert!(registry.contains_channel(3));
}

#[test]
fn a_self_removing_service_leaves_the_registry() {
    let mut registry = ServiceRegistry::new();
    assert!(registry.start(status_descriptor(5, "failing")).is_ok());
    assert!(registry.start(status_descriptor(6, "healthy")).is_ok());

    let removed = handle_service_exit(&mut registry, 5, ServiceExit::SelfRemove);
    assert!(removed);
    assert!(!registry.contains_channel(5));
    assert!(registry.contains_channel(6));
}

#[test]
fn a_cancelled_service_needs_no_removal() {
    let mut registry = ServiceRegistry::new();
    assert!(registry.start(status_descriptor(5, "stopping")).is_ok());
    let removed = handle_service_exit(&mut registry, 5, ServiceExit::Cancelled);
    assert!(!removed);
    assert!(registry.contains_channel(5));
    let removed = handle_service_exit(&mut registry, 5, ServiceExit::Completed);
    assert!(!removed);
    assert!(registry.contains_channel(5));
}

#[test]
fn service_steps_map_events_to_exits() {
    assert_eq!(
        service_step(CycleEvent::TransportFailed),
        CycleStep::Exit(ServiceExit::SelfRemove)
    );
    assert_eq!(
        service_step(CycleEvent::Malformed),
        CycleStep::Exit(ServiceExit::SelfRemove)
    );
    assert_eq!(
        service_step(CycleEvent::PublishFailed),
        CycleStep::Exit(ServiceExit::SelfRemove)
    );
    assert_eq!(
        service_step(CycleEvent::Cancelled),
        CycleStep::Exit(ServiceExit::Cancelled)
    );
    assert_eq!(service_step(CycleEvent::IntervalElapsed), CycleStep::Continue);
}

#[test]
fn persistence_round_trips_three_descriptors() {
    let mut registry = ServiceRegistry::new();
    assert!(registry
        .start(MonitorDescriptor {
            channel_id: 100,
            monitor_type: MonitorType::Status {
                name: "Sérvér à jour".to_string(),
                host: "mc.example.net".to_string(),
                port: 25565,
                mid: 424242,
            },
        })
        .is_ok());
    assert!(registry
        .start(MonitorDescriptor {
            channel_id: 200,
            monitor_type: MonitorType::Advancement { port: 7070 },
        })
        .is_ok());
    assert!(registry
        .start(MonitorDescriptor {
            channel_id: 300,
            monitor_type: MonitorType::Death { port: 8080 },
        })
        .is_ok());

    let stored = registry.persist();
    let restored = ServiceRegistry::restore(&stored);

    assert_eq!(restored.len(), 3);
    for ch in [100u64, 200, 300] {
        assert!(restored.contains_channel(ch));
    }
    // the canonical store of the restored registry matches byte for byte
    assert_eq!(restored.persist(), stored);
}

#[test]
fn an_unreadable_store_restores_an_empty_registry() {
    assert!(decode_registry(&[]).is_none());
    assert!(decode_registry(&[1, 2, 3]).is_none());
    assert_eq!(ServiceRegistry::restore(&[]).len(), 0);
    assert_eq!(ServiceRegistry::restore(&[9, 9, 9]).len(), 0);
    // a count that promises more records than the store holds
    let mut bytes = 5u64.to_le_bytes().to_vec();
    bytes.push(0);
    assert!(decode_registry(&bytes).is_none());
}

#[test]
fn a_store_with_trailing_garbage_is_unreadable() {
    let mut registry = ServiceRegistry::new();
    assert!(registry.start(status_descriptor(1, "one")).is_ok());
    let mut stored = registry.persist();
    stored.push(0xAB);
    assert!(decode_registry(&stored).is_none());
    assert_eq!(ServiceRegistry::restore(&stored).len(), 0);
}

#[test]
fn restore_drops_duplicate_channels_from_a_crafted_store() {
    let mut registry = ServiceRegistry::new();
    assert!(registry.start(status_descriptor(7, "first")).is_ok());
    let once = registry.persist();
    // craft a store that lists the same channel twice
    let record = &once[8..];
    let mut crafted = 2u64.to_le_bytes().to_vec();
    crafted.extend_from_slice(record);
    crafted.extend_from_slice(record);
    let restored = ServiceRegistry::restore(&crafted);
    assert_eq!(restored.len(), 1);
    assert!(restored.contains_channel(7));
}
