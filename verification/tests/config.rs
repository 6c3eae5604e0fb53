use slonk::config::{Action, ConfigFault, Configuration, Driver, Sensor, SensorGroup, Step};

fn sensor(adc: u8) -> Sensor {
    Sensor {
        label: String::from("PT_FEED"),
        adc,
        channel: 2,
        unit: String::from("psi"),
        calibration_intercept: String::from("0"),
        calibration_slope: String::from("1"),
    }
}

fn group() -> SensorGroup {
    SensorGroup {
        label: String::from("PRESSURE"),
        frequency_standby_hz: 10,
        frequency_ignite_hz: 1000,
        frequency_dash_hz: 10,
        window_size: 8,
        sensors: vec![sensor(0), sensor(1)],
    }
}

fn driver(safe_level: bool) -> Driver {
    Driver { label: String::from("VALVE"), pin: 4, protected: false, safe_level }
}

fn configuration() -> Configuration {
    Configuration {
        spi_mosi: 26,
        spi_miso: 19,
        spi_clk: 13,
        spi_frequency_clk: 50_000,
        adc_cs: vec![5, 6],
        drivers: vec![driver(false), driver(true)],
        sensor_groups: vec![group(), group()],
        ignition_sequence: vec![
            Step { offset_ms: 0, action: Action::Actuate { driver_id: 1, value: false } },
            Step { offset_ms: 0, action: Action::Sleep },
            Step { offset_ms: 100, action: Action::Actuate { driver_id: 0, value: true } },
        ],
        pre_ignite_time_ms: 0,
        post_ignite_time_ms: 0,
        driver_poll_period_ms: 50,
    }
}

#[test]
fn a_sound_configuration_is_accepted() {
    assert_eq!(configuration().validate(), Ok(()));
}

#[test]
fn a_minimal_configuration_is_accepted() {
    let config = Configuration {
        spi_mosi: 0,
        spi_miso: 0,
        spi_clk: 0,
        spi_frequency_clk: 1,
        adc_cs: vec![],
        drivers: vec![],
        sensor_groups: vec![],
        ignition_sequence: vec![],
        pre_ignite_time_ms: 0,
        post_ignite_time_ms: 0,
        driver_poll_period_ms: 1,
    };
    assert_eq!(config.validate(), Ok(()));
}

#[test]
fn a_zero_spi_clock_is_refused() {
    let mut config = configuration();
    config.spi_frequency_clk = 0;
    assert_eq!(config.validate(), Err(ConfigFault::SpiClock));
}

#[test]
fn a_zero_poll_period_is_refused() {
    let mut config = configuration();
    config.driver_poll_period_ms = 0;
    assert_eq!(config.validate(), Err(ConfigFault::PollPeriod));
}

#[test]
fn too_many_drivers_are_refused() {
    let mut config = configuration();
    config.drivers = (0..257).map(|_| driver(false)).collect();
    assert_eq!(config.validate(), Err(ConfigFault::DriverCount));
    config.drivers.pop();
    assert_eq!(config.validate(), Ok(()));
}

#[test]
fn too_many_groups_are_refused() {
    let mut config = configuration();
    config.sensor_groups = (0..257).map(|_| group()).collect();
    assert_eq!(config.validate(), Err(ConfigFault::GroupCount));
}

#[test]
fn unusable_rates_are_refused() {
    let mut config = configuration();
    config.sensor_groups[1].frequency_dash_hz = 0;
    assert_eq!(config.validate(), Err(ConfigFault::GroupRate { group: 1 }));
    let mut config = configuration();
    config.sensor_groups[0].frequency_dash_hz = 11;
    assert_eq!(config.validate(), Err(ConfigFault::GroupRate { group: 0 }));
    let mut config = configuration();
    config.sensor_groups[0].frequency_ignite_hz = 9;
    assert_eq!(config.validate(), Err(ConfigFault::GroupRate { group: 0 }));
    let mut config = configuration();
    config.sensor_groups[0].frequency_standby_hz = 0;
    assert_eq!(config.validate(), Err(ConfigFault::GroupRate { group: 0 }));
}

#[test]
fn an_empty_window_is_refused() {
    let mut config = configuration();
    config.sensor_groups[1].window_size = 0;
    assert_eq!(config.validate(), Err(ConfigFault::GroupWindow { group: 1 }));
}

#[test]
fn too_many_sensors_are_refused() {
    let mut config = configuration();
    config.sensor_groups[0].sensors = (0..257).map(|_| sensor(0)).collect();
    assert_eq!(config.validate(), Err(ConfigFault::SensorCount { group: 0 }));
}

#[test]
fn a_sensor_on_a_missing_converter_is_refused() {
    let mut config = configuration();
    config.sensor_groups[1].sensors[1].adc = 2;
    assert_eq!(config.validate(), Err(ConfigFault::SensorAdc { group: 1, sensor: 1 }));
    config.adc_cs.push(7);
    assert_eq!(config.validate(), Ok(()));
}

#[test]
fn a_sensor_on_a_missing_channel_is_refused() {
    let mut config = configuration();
    config.sensor_groups[0].sensors[1].channel = 8;
    assert_eq!(config.validate(), Err(ConfigFault::SensorChannel { group: 0, sensor: 1 }));
    config.sensor_groups[0].sensors[1].channel = 7;
    assert_eq!(config.validate(), Ok(()));
}

#[test]
fn a_calibration_that_is_no_number_is_refused() {
    let mut config = configuration();
    config.sensor_groups[0].sensors[1].calibration_slope = String::from("steep");
    assert_eq!(config.validate(), Err(ConfigFault::SensorCalibration { group: 0, sensor: 1 }));
    let mut config = configuration();
    config.sensor_groups[0].sensors[0].calibration_intercept = String::new();
    assert_eq!(config.validate(), Err(ConfigFault::SensorCalibration { group: 0, sensor: 0 }));
}

#[test]
fn a_step_for_a_missing_driver_is_refused() {
    let mut config = configuration();
    config.ignition_sequence[2].action = Action::Actuate { driver_id: 2, value: true };
    assert_eq!(config.validate(), Err(ConfigFault::StepDriver { step: 2 }));
}

#[test]
fn a_sequence_out_of_order_is_refused() {
    let mut config = configuration();
    config.ignition_sequence[1].offset_ms = 101;
    assert_eq!(config.validate(), Err(ConfigFault::StepOrder { step: 1 }));
}

#[test]
fn the_configuration_is_written_field_by_field() {
    let config = Configuration {
        spi_mosi: 1,
        spi_miso: 2,
        spi_clk: 3,
        spi_frequency_clk: 4,
        adc_cs: vec![],
        drivers: vec![],
        sensor_groups: vec![],
        ignition_sequence: vec![],
        pre_ignite_time_ms: 5,
        post_ignite_time_ms: 6,
        driver_poll_period_ms: 7,
    };
    let mut out = Vec::new();
    config.write_wire(&mut out);
    let expected = "{\"spi_mosi\":1,\"spi_miso\":2,\"spi_clk\":3,\"spi_frequency_clk\":4,\
        \"adc_cs\":[],\"drivers\":[],\"sensor_groups\":[],\"ignition_sequence\":[],\
        \"pre_ignite_time_ms\":5,\"post_ignite_time_ms\":6,\"driver_poll_period_ms\":7}";
    assert_eq!(out, expected.as_bytes().to_vec());
}

#[test]
fn the_parts_of_a_configuration_are_written_field_by_field() {
    let mut out = Vec::new();
    driver(true).write_wire(&mut out);
    assert_eq!(
        out,
        b"{\"label\":\"VALVE\",\"pin\":4,\"protected\":false,\"safe_level\":true}".to_vec()
    );
    let mut out = Vec::new();
    sensor(1).write_wire(&mut out);
    let expected = "{\"label\":\"PT_FEED\",\"adc\":1,\"channel\":2,\"unit\":\"psi\",\
        \"calibration_intercept\":0,\"calibration_slope\":1}";
    assert_eq!(out, expected.as_bytes().to_vec());
    let mut out = Vec::new();
    Step { offset_ms: 1500, action: Action::Actuate { driver_id: 3, value: true } }
        .write_wire(&mut out);
    let expected =
        "{\"offset_ms\":1500,\"action\":{\"type\":\"Actuate\",\"driver_id\":3,\"value\":true}}";
    assert_eq!(out, expected.as_bytes().to_vec());
    let mut out = Vec::new();
    Action::Sleep.write_wire(&mut out);
    assert_eq!(out, b"{\"type\":\"Sleep\"}".to_vec());
    let mut out = b"#".to_vec();
    let mut small = group();
    small.sensors.clear();
    small.write_wire(&mut out);
    let expected = "#{\"label\":\"PRESSURE\",\"frequency_standby_hz\":10,\
        \"frequency_ignite_hz\":1000,\"frequency_dash_hz\":10,\"window_size\":8,\"sensors\":[]}";
    assert_eq!(out, expected.as_bytes().to_vec());
}

#[test]
fn the_written_configuration_reads_back() {
    let config = configuration();
    let mut out = Vec::new();
    config.write_wire(&mut out);
    let value = serde_json::from_slice::<serde_json::Value>(&out).unwrap();
    assert_eq!(value["adc_cs"][1].as_u64(), Some(6));
    assert_eq!(value["drivers"].as_array().unwrap().len(), 2);
    assert_eq!(value["drivers"][1]["safe_level"].as_bool(), Some(true));
    assert_eq!(value["sensor_groups"][1]["sensors"][1]["adc"].as_u64(), Some(1));
    assert_eq!(value["sensor_groups"][0]["sensors"][0]["label"].as_str(), Some("PT_FEED"));
    assert_eq!(value["ignition_sequence"][2]["offset_ms"].as_u64(), Some(100));
    assert_eq!(value["ignition_sequence"][1]["action"]["type"].as_str(), Some("Sleep"));
}
