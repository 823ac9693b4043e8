use std::sync::{Arc, Mutex};
use ubat::event_bus::EventBus;

const TEST_EVENT: u64 = 1;
const DATA_EVENT: u64 = 2;
const HIGH_FREQUENCY_EVENT: u64 = 3;

type Handler = Box<dyn Fn(&str)>;

fn dispatch(bus: &EventBus<Handler>, kind: u64, payload: &str) {
    for i in bus.publish(kind) {
        (bus.handler(i))(payload);
    }
}

#[test]
fn test_simple_event_subscription() {
    let mut event_bus: EventBus<Handler> = EventBus::new();
    let received = Arc::new(Mutex::new(false));
    let test_received = Arc::clone(&received);
    event_bus.subscribe(TEST_EVENT, Box::new(move |_: &str| {
        *test_received.lock().unwrap() = true;
    }));
    dispatch(&event_bus, TEST_EVENT, "");
    assert!(*received.lock().unwrap());
}

#[test]
fn test_multiple_subscribers() {
    let mut event_bus: EventBus<Handler> = EventBus::new();
    let received_count = Arc::new(Mutex::new(0));
    for _ in 0..3 {
        let count_clone = Arc::clone(&received_count);
        event_bus.subscribe(TEST_EVENT, Box::new(move |_: &str| {
            *count_clone.lock().unwrap() += 1;
        }));
    }
    dispatch(&event_bus, TEST_EVENT, "");
    assert_eq!(*received_count.lock().unwrap(), 3);
}

#[test]
fn test_event_data_passing() {
    let mut event_bus: EventBus<Handler> = EventBus::new();
    let received_data: Arc<Mutex<Option<String>>> = Arc::new(Mutex::new(None));
    let data_clone = Arc::clone(&received_data);
    event_bus.subscribe(DATA_EVENT, Box::new(move |data: &str| {
        *data_clone.lock().unwrap() = Some(data.to_string());
    }));
    dispatch(&event_bus, DATA_EVENT, "Test Data");
    assert_eq!(*received_data.lock().unwrap(), Some("Test Data".to_string()));
}

#[test]
fn test_high_frequency_events() {
    let mut event_bus: EventBus<Handler> = EventBus::new();
    let event_count = Arc::new(Mutex::new(0));
    let count_clone = Arc::clone(&event_count);
    event_bus.subscribe(HIGH_FREQUENCY_EVENT, Box::new(move |_: &str| {
        *count_clone.lock().unwrap() += 1;
    }));
    for _ in 0..1000 {
        dispatch(&event_bus, HIGH_FREQUENCY_EVENT, "");
    }
    assert_eq!(*event_count.lock().unwrap(), 1000);
}

#[test]
fn test_no_subscribers_scenario() {
    let event_bus: EventBus<Handler> = EventBus::new();
    dispatch(&event_bus, TEST_EVENT, "");
    assert!(event_bus.publish(TEST_EVENT).is_empty());
}

#[test]
fn publish_reaches_only_the_handlers_of_its_kind_in_order() {
    let mut event_bus: EventBus<u32> = EventBus::new();
    event_bus.subscribe(TEST_EVENT, 10);
    event_bus.subscribe(DATA_EVENT, 20);
    event_bus.subscribe(TEST_EVENT, 30);
    assert_eq!(event_bus.publish(TEST_EVENT), vec![0, 2]);
    assert_eq!(event_bus.publish(DATA_EVENT), vec![1]);
    assert_eq!(*event_bus.handler(2), 30);
    assert_eq!(event_bus.len(), 3);
    assert!(event_bus.is_initialized());
}
