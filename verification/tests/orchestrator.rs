//! The hub's read, write and notification behaviour.

use xtouch_wing::orchestrator::{
    Effect, Interface, NotifyStart, Orchestrator, ReadPoll, ReadStart, OSC_TIMEOUT_MS,
};
use xtouch_wing::Value;

fn hub(providers: usize) -> (Orchestrator, Vec<Interface>) {
    Orchestrator::new(providers)
}

#[test]
fn registration_assigns_dense_identities() {
    let (_orch, interfaces) = hub(3);
    assert_eq!(interfaces.len(), 4);
    for (i, iface) in interfaces.iter().enumerate() {
        assert_eq!(iface.id(), i);
    }
}

#[test]
fn cache_hit_short_circuit() {
    let (mut orch, interfaces) = hub(2);
    let a = &interfaces[1];
    a.set_value(&mut orch, "/ch/3/fdr", Value::Int(42));

    // A cached read returns at once, with no console request issued.
    let (start, effects) = a.get_value(&orch, "/ch/3/fdr", false, 0);
    assert_eq!(start, ReadStart::Hit(Value::Int(42)));
    assert!(effects.is_empty());
}

#[test]
fn cache_miss_issues_request_and_waits() {
    let (orch, interfaces) = hub(2);
    let a = &interfaces[1];
    let (start, effects) = a.get_value(&orch, "/ch/3/fdr", false, 7);
    match start {
        ReadStart::Wait(pending) => {
            assert_eq!(pending.path, "/ch/3/fdr");
            assert_eq!(pending.deadline_ms, 7 + OSC_TIMEOUT_MS);
        }
        other => panic!("expected a wait, got {:?}", other),
    }
    assert_eq!(
        effects,
        vec![Effect::RequestConsole { path: "/ch/3/fdr".to_string() }]
    );
}

#[test]
fn forced_refresh_requests_even_when_cached() {
    let (mut orch, interfaces) = hub(1);
    let a = &interfaces[1];
    a.set_value(&mut orch, "/ch/3/fdr", Value::Int(1));
    let (start, effects) = a.get_value(&orch, "/ch/3/fdr", true, 0);
    assert!(matches!(start, ReadStart::Wait(_)));
    assert_eq!(effects.len(), 1);
    // The stale value still satisfies the next poll.
    if let ReadStart::Wait(pending) = start {
        assert_eq!(orch.poll_wait(&pending, 0), ReadPoll::Ready(Value::Int(1)));
    }
}

#[test]
fn loop_avoidance_scenario() {
    // Console (id 0) and two providers A (id 1) and B (id 2).
    let (mut orch, interfaces) = hub(2);
    let a = &interfaces[1];
    let value = Value::Float(0.5f32.to_bits());

    let effects = a.set_value(&mut orch, "/ch/1/fdr", value.clone());

    // Cache holds the value.
    assert_eq!(orch.get_cached_value("/ch/1/fdr"), Some(value.clone()));
    // The console is written once, B is written once, A never.
    assert_eq!(
        effects,
        vec![
            Effect::WriteConsole { path: "/ch/1/fdr".to_string(), value: value.clone() },
            Effect::WriteProvider { provider: 2, path: "/ch/1/fdr".to_string(), value },
        ]
    );
}

#[test]
fn console_originated_update_skips_console() {
    let (mut orch, interfaces) = hub(2);
    let console = &interfaces[0];
    let value = Value::Str("USB".to_string());
    let effects = console.set_value(&mut orch, "/io/in", value.clone());
    assert_eq!(
        effects,
        vec![
            Effect::WriteProvider { provider: 1, path: "/io/in".to_string(), value: value.clone() },
            Effect::WriteProvider { provider: 2, path: "/io/in".to_string(), value },
        ]
    );
}

#[test]
fn last_write_wins() {
    let (mut orch, interfaces) = hub(2);
    let a = &interfaces[1];
    let b = &interfaces[2];
    a.set_value(&mut orch, "/ch/1/fdr", Value::Int(1));
    b.set_value(&mut orch, "/ch/1/fdr", Value::Int(2));
    assert_eq!(orch.get_cached_value("/ch/1/fdr"), Some(Value::Int(2)));
    // Other paths are untouched.
    a.set_value(&mut orch, "/ch/2/fdr", Value::Int(9));
    assert_eq!(orch.get_cached_value("/ch/1/fdr"), Some(Value::Int(2)));
}

#[test]
fn timeout_fires_not_earlier_not_later() {
    let (mut orch, interfaces) = hub(1);
    orch.set_timeout_ms(50);
    let a = &interfaces[1];
    let (start, effects) = a.get_value(&orch, "/ch/99/fdr", false, 0);
    assert_eq!(effects.len(), 1);
    let pending = match start {
        ReadStart::Wait(p) => p,
        other => panic!("expected a wait, got {:?}", other),
    };
    assert_eq!(pending.deadline_ms, 50);

    // Nothing ever populates the path: polls before the deadline keep
    // waiting, the first poll at the deadline times out.
    assert_eq!(orch.poll_wait(&pending, 0), ReadPoll::KeepWaiting);
    assert_eq!(orch.poll_wait(&pending, 10), ReadPoll::KeepWaiting);
    assert_eq!(orch.poll_wait(&pending, 49), ReadPoll::KeepWaiting);
    assert_eq!(orch.poll_wait(&pending, 50), ReadPoll::TimedOut);
    assert_eq!(orch.poll_wait(&pending, 51), ReadPoll::TimedOut);
}

#[test]
fn late_reply_still_populates_cache() {
    let (mut orch, interfaces) = hub(2);
    orch.set_timeout_ms(50);
    let a = &interfaces[1];
    let console = &interfaces[0];
    let (start, _) = a.get_value(&orch, "/ch/9/fdr", false, 0);
    let pending = match start {
        ReadStart::Wait(p) => p,
        other => panic!("expected a wait, got {:?}", other),
    };
    assert_eq!(orch.poll_wait(&pending, 50), ReadPoll::TimedOut);

    // The reply arrives after the timeout; the next reader hits the cache.
    console.set_value(&mut orch, "/ch/9/fdr", Value::Int(7));
    let (start, effects) = a.get_value(&orch, "/ch/9/fdr", false, 60);
    assert_eq!(start, ReadStart::Hit(Value::Int(7)));
    assert!(effects.is_empty());
}

#[test]
fn notification_on_cached_value() {
    let (mut orch, interfaces) = hub(2);
    let console = &interfaces[0];
    let b = &interfaces[2];
    console.set_value(&mut orch, "/ch/1/fdr", Value::Int(5));

    // Exactly one synthesized write, to the requester, carrying the
    // cached value; no console request.
    let effects = b.request_value_notification(&orch, "/ch/1/fdr", false);
    assert_eq!(
        effects,
        vec![Effect::WriteProvider {
            provider: 2,
            path: "/ch/1/fdr".to_string(),
            value: Value::Int(5),
        }]
    );
}

#[test]
fn notification_for_console_uses_console_write() {
    let (mut orch, interfaces) = hub(1);
    let console = &interfaces[0];
    let a = &interfaces[1];
    a.set_value(&mut orch, "/ch/1/fdr", Value::Int(5));
    let effects = console.request_value_notification(&orch, "/ch/1/fdr", false);
    assert_eq!(
        effects,
        vec![Effect::WriteConsole { path: "/ch/1/fdr".to_string(), value: Value::Int(5) }]
    );
}

#[test]
fn notification_on_uncached_value_requests() {
    let (orch, interfaces) = hub(2);
    let b = &interfaces[2];
    let effects = b.request_value_notification(&orch, "/ch/1/fdr", false);
    assert_eq!(
        effects,
        vec![Effect::RequestConsole { path: "/ch/1/fdr".to_string() }]
    );
}

#[test]
fn checked_notification_cached_is_done() {
    let (mut orch, interfaces) = hub(1);
    let a = &interfaces[1];
    a.set_value(&mut orch, "/ch/1/fdr", Value::Int(5));
    let (start, effects) = a.request_value_notification_checked(&orch, "/ch/1/fdr", false, 0);
    assert_eq!(start, NotifyStart::Done);
    assert_eq!(effects.len(), 1);
}

#[test]
fn checked_notification_uncached_waits() {
    let (mut orch, interfaces) = hub(1);
    orch.set_timeout_ms(50);
    let a = &interfaces[1];
    let (start, effects) = a.request_value_notification_checked(&orch, "/ch/1/fdr", false, 3);
    match start {
        NotifyStart::Wait(pending) => {
            assert_eq!(pending.path, "/ch/1/fdr");
            assert_eq!(pending.deadline_ms, 53);
            assert_eq!(orch.poll_wait(&pending, 53), ReadPoll::TimedOut);
        }
        other => panic!("expected a wait, got {:?}", other),
    }
    assert_eq!(
        effects,
        vec![Effect::RequestConsole { path: "/ch/1/fdr".to_string() }]
    );
}

#[test]
fn ensure_value_requests_only_when_needed() {
    let (mut orch, interfaces) = hub(1);
    let a = &interfaces[1];
    assert_eq!(
        a.ensure_value(&orch, "/ch/1/fdr", false),
        vec![Effect::RequestConsole { path: "/ch/1/fdr".to_string() }]
    );
    a.set_value(&mut orch, "/ch/1/fdr", Value::Int(1));
    assert!(a.ensure_value(&orch, "/ch/1/fdr", false).is_empty());
    assert_eq!(a.ensure_value(&orch, "/ch/1/fdr", true).len(), 1);
}

#[test]
fn unknown_provider_identity_is_a_no_op() {
    let (orch, _interfaces) = hub(2);
    assert!(orch.notify_provider_by_id(3, "/ch/1/fdr", &Value::Int(1)).is_none());
    assert!(orch.notify_provider_by_id(0, "/ch/1/fdr", &Value::Int(1)).is_some());
    assert!(orch.notify_provider_by_id(2, "/ch/1/fdr", &Value::Int(1)).is_some());
}

#[test]
fn meter_broadcast_targets_every_provider() {
    let (orch, interfaces) = hub(3);
    let console = &interfaces[0];
    assert_eq!(console.set_meters(&orch), vec![1, 2, 3]);
}

#[test]
fn cache_state_queries() {
    let (mut orch, interfaces) = hub(1);
    let a = &interfaces[1];
    assert!(!orch.value_exists_in_cache("/ch/1/fdr"));
    assert_eq!(orch.get_cached_value("/ch/1/fdr"), None);
    a.set_value(&mut orch, "/ch/1/fdr", Value::Blob(vec![1, 2, 3]));
    assert!(orch.value_exists_in_cache("/ch/1/fdr"));
    assert_eq!(orch.get_cached_value("/ch/1/fdr"), Some(Value::Blob(vec![1, 2, 3])));
}
