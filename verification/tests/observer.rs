use slonk::clock::Timestamp;
use slonk::config::{Configuration, Driver};
use slonk::observer::{Change, DriverObserver};
use slonk::outgoing::Message;

fn configuration(safe_levels: &[bool]) -> Configuration {
    Configuration {
        spi_mosi: 26,
        spi_miso: 19,
        spi_clk: 13,
        spi_frequency_clk: 50_000,
        adc_cs: vec![],
        drivers: safe_levels
            .iter()
            .map(|level| Driver {
                label: String::from("VALVE"),
                pin: 4,
                protected: false,
                safe_level: *level,
            })
            .collect(),
        sensor_groups: vec![],
        ignition_sequence: vec![],
        pre_ignite_time_ms: 0,
        post_ignite_time_ms: 0,
        driver_poll_period_ms: 50,
    }
}

#[test]
fn the_initial_levels_are_no_change() {
    let mut observer = DriverObserver::new(&configuration(&[false, true, false]));
    assert_eq!(observer.observe(&[false, true, false], Timestamp { nanos: 1 }), None);
    assert_eq!(observer.observe(&[false, true, false], Timestamp { nanos: 2 }), None);
}

#[test]
fn a_change_is_logged_and_sent_once() {
    let mut observer = DriverObserver::new(&configuration(&[false, true, false]));
    let change = observer.observe(&[true, true, false], Timestamp { nanos: 7 });
    assert_eq!(
        change,
        Some(Change { row: b"7,true,true,false\n".to_vec(), values: vec![true, true, false] })
    );
    assert_eq!(observer.observe(&[true, true, false], Timestamp { nanos: 8 }), None);
    let back = observer.observe(&[false, true, false], Timestamp { nanos: 9 });
    assert_eq!(
        back,
        Some(Change { row: b"9,false,true,false\n".to_vec(), values: vec![false, true, false] })
    );
}

#[test]
fn a_change_of_the_last_driver_is_seen() {
    let mut observer = DriverObserver::new(&configuration(&[false, false, false]));
    assert!(observer.observe(&[false, false, true], Timestamp { nanos: 1 }).is_some());
    assert!(observer.observe(&[false, false, true], Timestamp { nanos: 1 }).is_none());
}

#[test]
fn other_lines_are_a_change() {
    let mut observer = DriverObserver::new(&configuration(&[true, true]));
    assert_eq!(
        observer.observe(&[true], Timestamp { nanos: 3 }),
        Some(Change { row: b"3,true\n".to_vec(), values: vec![true] })
    );
    assert_eq!(observer.observe(&[true], Timestamp { nanos: 4 }), None);
    assert_eq!(
        observer.observe(&[], Timestamp { nanos: 5 }),
        Some(Change { row: b"5\n".to_vec(), values: vec![] })
    );
}

#[test]
fn no_drivers_never_change() {
    let mut observer = DriverObserver::new(&configuration(&[]));
    assert_eq!(observer.observe(&[], Timestamp { nanos: 1 }), None);
}

#[test]
fn a_change_is_sent_as_driver_values() {
    let mut observer = DriverObserver::new(&configuration(&[false, false]));
    let change = observer.observe(&[false, true], Timestamp { nanos: 1 }).unwrap();
    let message = change.message();
    assert!(matches!(message, Message::DriverValue { values: &[false, true] }));
    assert_eq!(message.to_json(), b"{\"type\":\"DriverValue\",\"values\":[false,true]}".to_vec());
}
