use serde_json::Value;
use slonk::clock::Timestamp;
use slonk::config::{Action, Configuration, Driver, Sensor, SensorGroup, Step};
use slonk::outgoing::{DashChannel, ErrorCause, Message, SensorReading};

/// Tests that the frame of a message reads as the expected JSON document,
/// whatever the white space and the order of the keys.
fn serialize_helper(expected: &str, message: &Message) {
    let message_value = serde_json::from_slice::<Value>(&message.to_json()).unwrap();
    let expected_value = serde_json::from_str::<Value>(expected).unwrap();

    assert_eq!(message_value, expected_value);
}

fn small_configuration() -> Configuration {
    Configuration {
        spi_mosi: 26,
        spi_miso: 19,
        spi_clk: 13,
        spi_frequency_clk: 50_000,
        adc_cs: vec![5, 6],
        drivers: vec![Driver {
            label: String::from("OXI_FILL"),
            pin: 17,
            protected: true,
            safe_level: false,
        }],
        sensor_groups: vec![SensorGroup {
            label: String::from("FAST"),
            frequency_standby_hz: 10,
            frequency_ignite_hz: 1000,
            frequency_dash_hz: 10,
            window_size: 4,
            sensors: vec![Sensor {
                label: String::from("LC_MAIN"),
                adc: 1,
                channel: 3,
                unit: String::from("lb"),
                calibration_intercept: String::from("-0.5"),
                calibration_slope: String::from("1.25e2"),
            }],
        }],
        ignition_sequence: vec![
            Step { offset_ms: 0, action: Action::Actuate { driver_id: 0, value: true } },
            Step { offset_ms: 250, action: Action::Sleep },
        ],
        pre_ignite_time_ms: 500,
        post_ignite_time_ms: 5000,
        driver_poll_period_ms: 50,
    }
}

#[test]
/// Test that a sensor value message is serialized correctly.
fn serialize_sensor_value() {
    serialize_helper(
        r#"{
                "type": "SensorValue",
                "group_id": 0,
                "readings": [
                    {
                        "sensor_id": 0,
                        "reading": 3456,
                        "time": {
                            "secs_since_epoch": 1651355351,
                            "nanos_since_epoch": 534000000
                        } 
                    }
                ]
            }"#,
        &Message::SensorValue {
            group_id: 0,
            readings: &[SensorReading {
                sensor_id: 0,
                reading: 3456,
                time: Timestamp::from_millis(1_651_355_351_534),
            }],
        },
    );
}

#[test]
/// Test that a driver value message is serialized correctly.
fn serialize_driver_value() {
    serialize_helper(
        r#"{
                "type": "DriverValue",
                "values": [
                    false,
                    true,
                    false
                ]
            }"#,
        &Message::DriverValue { values: &[false, true, false] },
    );
}

#[test]
/// Test that a display message is serialized correctly.
fn serialize_display() {
    serialize_helper(
        r#"{
                "type": "Display",
                "message": "The weather today is expected to be mostly sunny, with a high of 73 degrees Fahrenheit."
            }"#,
        &Message::Display {
            message: "The weather today is expected to be mostly sunny, with a high of 73 degrees Fahrenheit.",
        },
    );
}

#[test]
/// Test that a malformed error message is serialized correctly.
fn serialize_error_malformed() {
    serialize_helper(
        r#"{
                "type": "Error",
                "diagnostic": "expected key `driver_id` not found",
                "cause": {
                    "type": "Malformed",
                    "original_message": "{\"type\": \"actuate\"}"
                }
            }"#,
        &Message::Error {
            diagnostic: "expected key `driver_id` not found",
            cause: ErrorCause::Malformed { original_message: "{\"type\": \"actuate\"}" },
        },
    );
}

#[test]
/// Test that a failed sensor error message is serialized correctly.
fn serialize_sensor_fail() {
    serialize_helper(
        r#"{
                "type": "Error",
                "diagnostic": "SPI transfer for LC_MAIN failed",
                "cause": {
                    "type": "SensorFail",
                    "group_id": 0,
                    "sensor_id": 0
                }
            }"#,
        &Message::Error {
            diagnostic: "SPI transfer for LC_MAIN failed",
            cause: ErrorCause::SensorFail { group_id: 0, sensor_id: 0 },
        },
    );
}

#[test]
/// Test that a failed permission error message is serialized correctly.
fn serialize_permission() {
    serialize_helper(
        r#"{
                "type": "Error",
                "diagnostic": "could not write to log file `log_LC_MAIN.txt`",
                "cause": {
                    "type": "Permission"
                }
            }"#,
        &Message::Error {
            diagnostic: "could not write to log file `log_LC_MAIN.txt`",
            cause: ErrorCause::Permission,
        },
    );
}

#[test]
fn serialize_ready() {
    assert_eq!(Message::Ready.to_json(), b"{\"type\":\"Ready\"}".to_vec());
}

#[test]
fn serialize_config() {
    let config = small_configuration();
    serialize_helper(
        r#"{
            "type": "Config",
            "config": {
                "spi_mosi": 26,
                "spi_miso": 19,
                "spi_clk": 13,
                "spi_frequency_clk": 50000,
                "adc_cs": [5, 6],
                "drivers": [
                    {"label": "OXI_FILL", "pin": 17, "protected": true, "safe_level": false}
                ],
                "sensor_groups": [
                    {
                        "label": "FAST",
                        "frequency_standby_hz": 10,
                        "frequency_ignite_hz": 1000,
                        "frequency_dash_hz": 10,
                        "window_size": 4,
                        "sensors": [
                            {
                                "label": "LC_MAIN",
                                "adc": 1,
                                "channel": 3,
                                "unit": "lb",
                                "calibration_intercept": -0.5,
                                "calibration_slope": 125.0
                            }
                        ]
                    }
                ],
                "ignition_sequence": [
                    {"offset_ms": 0, "action": {"type": "Actuate", "driver_id": 0, "value": true}},
                    {"offset_ms": 250, "action": {"type": "Sleep"}}
                ],
                "pre_ignite_time_ms": 500,
                "post_ignite_time_ms": 5000,
                "driver_poll_period_ms": 50
            }
        }"#,
        &Message::Config { config: &config },
    );
}

#[test]
fn frames_are_compact_and_ordered() {
    let frame = Message::SensorValue {
        group_id: 7,
        readings: &[
            SensorReading { sensor_id: 0, reading: 0, time: Timestamp { nanos: 0 } },
            SensorReading { sensor_id: 1, reading: 4095, time: Timestamp { nanos: 1_999_999_999 } },
        ],
    }
    .to_json();
    let expected = concat_bytes(&[
        "{\"type\":\"SensorValue\",\"group_id\":7,\"readings\":[",
        "{\"sensor_id\":0,\"reading\":0,\"time\":{\"secs_since_epoch\":0,\"nanos_since_epoch\":0}},",
        "{\"sensor_id\":1,\"reading\":4095,\"time\":{\"secs_since_epoch\":1,\"nanos_since_epoch\":999999999}}",
        "]}",
    ]);
    assert_eq!(frame, expected);
}

fn concat_bytes(parts: &[&str]) -> Vec<u8> {
    let mut all = Vec::new();
    for part in parts {
        all.extend_from_slice(part.as_bytes());
    }
    all
}

#[test]
fn empty_lists_are_empty_arrays() {
    assert_eq!(
        Message::DriverValue { values: &[] }.to_json(),
        b"{\"type\":\"DriverValue\",\"values\":[]}".to_vec()
    );
    assert_eq!(
        Message::SensorValue { group_id: 255, readings: &[] }.to_json(),
        b"{\"type\":\"SensorValue\",\"group_id\":255,\"readings\":[]}".to_vec()
    );
}

#[test]
fn strings_are_escaped_as_serde_json_escapes_them() {
    let texts = [
        "",
        "plain",
        "quote \" and backslash \\",
        "line\nfeed, tab\t, return\r, backspace\u{8}, form feed\u{c}",
        "controls \u{0}\u{1}\u{1f}\u{7f}",
        "beyond ASCII: é ✓ 🚀 \u{2028}",
        "</script>",
    ];
    for text in texts {
        let frame = Message::Display { message: text }.to_json();
        let mut expected = b"{\"type\":\"Display\",\"message\":".to_vec();
        expected.extend_from_slice(serde_json::to_string(text).unwrap().as_bytes());
        expected.push(b'}');
        assert_eq!(frame, expected);
        let value = serde_json::from_slice::<Value>(&frame).unwrap();
        assert_eq!(value["message"].as_str(), Some(text));
    }
}

#[test]
fn control_bytes_become_lower_case_hex_escapes() {
    let frame = Message::Display { message: "\u{1b}\u{1f}" }.to_json();
    assert_eq!(frame, b"{\"type\":\"Display\",\"message\":\"\\u001b\\u001f\"}".to_vec());
}

#[test]
fn the_type_tag_tells_the_six_messages_apart() {
    let config = small_configuration();
    let messages = [
        (Message::Ready, "Ready", vec![]),
        (Message::Config { config: &config }, "Config", vec!["config"]),
        (
            Message::SensorValue { group_id: 1, readings: &[] },
            "SensorValue",
            vec!["group_id", "readings"],
        ),
        (Message::DriverValue { values: &[true] }, "DriverValue", vec!["values"]),
        (Message::Display { message: "hello" }, "Display", vec!["message"]),
        (
            Message::Error { cause: ErrorCause::Permission, diagnostic: "no" },
            "Error",
            vec!["cause", "diagnostic"],
        ),
    ];
    let mut seen: Vec<String> = Vec::new();
    for (message, tag, fields) in messages {
        let value = serde_json::from_slice::<Value>(&message.to_json()).unwrap();
        let object = value.as_object().unwrap();
        assert_eq!(object["type"].as_str(), Some(tag));
        assert_eq!(object.len(), fields.len() + 1);
        for field in fields {
            assert!(object.contains_key(field));
        }
        assert!(!seen.contains(&tag.to_string()));
        seen.push(tag.to_string());
    }
}

#[test]
fn the_type_tag_tells_the_three_causes_apart() {
    let causes = [
        (ErrorCause::Malformed { original_message: "x" }, "Malformed", vec!["original_message"]),
        (ErrorCause::SensorFail { group_id: 2, sensor_id: 3 }, "SensorFail", vec!["group_id", "sensor_id"]),
        (ErrorCause::Permission, "Permission", vec![]),
    ];
    for (cause, tag, fields) in causes {
        let frame = Message::Error { cause, diagnostic: "d" }.to_json();
        let value = serde_json::from_slice::<Value>(&frame).unwrap();
        let object = value["cause"].as_object().unwrap();
        assert_eq!(object["type"].as_str(), Some(tag));
        assert_eq!(object.len(), fields.len() + 1);
        for field in fields {
            assert!(object.contains_key(field));
        }
    }
}

#[test]
fn a_new_channel_has_no_target() {
    let channel: DashChannel<Vec<u8>, Vec<u8>> = DashChannel::new(Vec::new());
    assert!(!channel.has_target());
    assert!(channel.send(&Message::Ready).is_none());
}

#[test]
fn a_channel_with_a_target_hands_out_the_frame() {
    let mut channel: DashChannel<Vec<u8>, Vec<u8>> = DashChannel::new(Vec::new());
    channel.set_channel(Some(Vec::new()));
    assert!(channel.has_target());
    let frame = channel.send(&Message::Display { message: "hi" }).unwrap();
    assert_eq!(frame, b"{\"type\":\"Display\",\"message\":\"hi\"}".to_vec());
}

#[test]
fn a_delivered_frame_is_logged_with_its_time() {
    let mut channel: DashChannel<Vec<u8>, Vec<u8>> = DashChannel::new(Vec::new());
    channel.set_channel(Some(Vec::new()));
    let frame = channel.send(&Message::Ready).unwrap();
    channel.target_mut().unwrap().extend_from_slice(&frame);
    let row = channel.settle(true, &frame, Timestamp { nanos: 1_651_355_351_534_000_000 }).unwrap();
    assert_eq!(row, b"1651355351534000000,{\"type\":\"Ready\"}\n".to_vec());
    channel.log_mut().extend_from_slice(&row);
    assert!(channel.has_target());
    assert_eq!(channel.target_mut().unwrap().as_slice(), b"{\"type\":\"Ready\"}");
    assert_eq!(channel.log_mut().as_slice(), b"1651355351534000000,{\"type\":\"Ready\"}\n");
}

#[test]
fn a_failed_write_drops_the_target_and_logs_nothing() {
    let mut channel: DashChannel<Vec<u8>, Vec<u8>> = DashChannel::new(Vec::new());
    channel.set_channel(Some(Vec::new()));
    let frame = channel.send(&Message::Ready).unwrap();
    assert!(channel.settle(false, &frame, Timestamp { nanos: 5 }).is_none());
    assert!(!channel.has_target());
    assert!(channel.target_mut().is_none());
    assert!(channel.send(&Message::Ready).is_none());
    assert!(channel.log_mut().is_empty());
}

#[test]
fn a_reconnect_replaces_the_target() {
    let mut channel: DashChannel<Vec<u8>, Vec<u8>> = DashChannel::new(Vec::new());
    channel.set_channel(Some(vec![1]));
    let frame = channel.send(&Message::Ready).unwrap();
    channel.settle(false, &frame, Timestamp { nanos: 5 });
    channel.set_channel(Some(vec![2]));
    assert!(channel.has_target());
    assert_eq!(channel.target_mut().unwrap().as_slice(), &[2]);
    channel.set_channel(None);
    assert!(!channel.has_target());
}
