use std::sync::atomic::{AtomicUsize, Ordering};
use std::sync::Arc;

use wubilex::config::model::AppConfig;
use wubilex::config::snapshot::{ConfigPersistence, ConfigSnapshot};
use wubilex::events::ConfigEventEmitter;

#[test]
fn config_emit_failure_is_observed_once_without_becoming_a_command_error() {
    let calls = Arc::new(AtomicUsize::new(0));
    let observed = Arc::clone(&calls);
    let emitter = ConfigEventEmitter::new(move |_| {
        observed.fetch_add(1, Ordering::Relaxed);
        Err("simulated listener failure".to_owned())
    });
    emitter.emit_changed(ConfigSnapshot {
        revision: 2,
        config: AppConfig::default(),
        persistence: ConfigPersistence::Ready,
        notices: Vec::new(),
    });
    assert_eq!(calls.load(Ordering::Relaxed), 1);
}

#[test]
fn emitted_event_carries_the_committed_snapshot() {
    let seen = Arc::new(AtomicUsize::new(0));
    let observed = Arc::clone(&seen);
    let emitter = ConfigEventEmitter::new(move |event: wubilex::events::ConfigChangedEvent| {
        observed.store(event.snapshot.revision as usize, Ordering::Relaxed);
        Ok(())
    });
    emitter.emit_changed(ConfigSnapshot {
        revision: 4,
        config: AppConfig::default(),
        persistence: ConfigPersistence::Ready,
        notices: Vec::new(),
    });
    assert_eq!(seen.load(Ordering::Relaxed), 4);
}
