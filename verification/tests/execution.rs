use slonk::clock::Timestamp;
use slonk::config::{Action, ConfigFault, Configuration, Driver, Step};
use slonk::execution::{Drive, Executor, Outcome, Progress, Reply};
use slonk::incoming::Command;
use slonk::outgoing::{ErrorCause, Message};
use slonk::state::ControllerState;

const MS: u64 = 1_000_000;

fn driver(protected: bool, safe_level: bool) -> Driver {
    Driver { label: String::from("VALVE"), pin: 4, protected, safe_level }
}

/// Three drivers, the first protected, and a sequence of five steps that
/// takes two seconds.
fn configuration() -> Configuration {
    Configuration {
        spi_mosi: 26,
        spi_miso: 19,
        spi_clk: 13,
        spi_frequency_clk: 50_000,
        adc_cs: vec![],
        drivers: vec![driver(true, false), driver(false, true), driver(false, false)],
        sensor_groups: vec![],
        ignition_sequence: vec![
            Step { offset_ms: 0, action: Action::Actuate { driver_id: 0, value: true } },
            Step { offset_ms: 500, action: Action::Actuate { driver_id: 2, value: true } },
            Step { offset_ms: 1000, action: Action::Sleep },
            Step { offset_ms: 1500, action: Action::Actuate { driver_id: 0, value: false } },
            Step { offset_ms: 2000, action: Action::Sleep },
        ],
        pre_ignite_time_ms: 0,
        post_ignite_time_ms: 0,
        driver_poll_period_ms: 50,
    }
}

fn executor() -> Executor {
    Executor::new(&configuration()).unwrap()
}

fn give(executor: &mut Executor, command: Command) -> Outcome {
    executor.handle_command(&command, Timestamp { nanos: 42 }, 1000)
}

fn safe_drives() -> Vec<Drive> {
    vec![
        Drive { driver_id: 0, value: false },
        Drive { driver_id: 1, value: true },
        Drive { driver_id: 2, value: false },
    ]
}

#[test]
fn a_new_executor_is_at_rest() {
    let executor = executor();
    assert_eq!(executor.state(), ControllerState::Standby);
    assert_eq!(executor.levels(), &[false, true, false]);
    assert!(!executor.running());
}

#[test]
fn a_faulty_configuration_gives_no_executor() {
    let mut config = configuration();
    config.ignition_sequence[1].action = Action::Actuate { driver_id: 3, value: true };
    assert_eq!(Executor::new(&config).err(), Some(ConfigFault::StepDriver { step: 1 }));
}

#[test]
fn every_command_is_logged_first() {
    let mut executor = executor();
    let outcome = executor.handle_command(
        &Command::Actuate { driver_id: 1, value: false },
        Timestamp { nanos: 1_651_355_351_534_000_000 },
        0,
    );
    assert_eq!(
        outcome.log_row,
        b"1651355351534000000,{\"type\":\"Actuate\",\"driver_id\":1,\"value\":false}\n".to_vec()
    );
    assert_eq!(give(&mut executor, Command::Ready).log_row, b"42,{\"type\":\"Ready\"}\n".to_vec());
    assert_eq!(
        give(&mut executor, Command::Actuate { driver_id: 0, value: true }).log_row,
        b"42,{\"type\":\"Actuate\",\"driver_id\":0,\"value\":true}\n".to_vec()
    );
    assert_eq!(
        give(&mut executor, Command::EmergencyStop).log_row,
        b"42,{\"type\":\"EmergencyStop\"}\n".to_vec()
    );
    assert_eq!(
        give(&mut executor, Command::Ignition).log_row,
        b"42,{\"type\":\"Ignition\"}\n".to_vec()
    );
}

#[test]
fn ready_is_answered_and_changes_nothing() {
    let mut executor = executor();
    let outcome = give(&mut executor, Command::Ready);
    assert_eq!(outcome.reply, Some(Reply::Ready));
    assert_eq!(outcome.drives, vec![]);
    assert_eq!(executor.state(), ControllerState::Standby);
    assert_eq!(executor.levels(), &[false, true, false]);
}

#[test]
fn actuation_sets_the_one_line() {
    let mut executor = executor();
    let outcome = give(&mut executor, Command::Actuate { driver_id: 2, value: true });
    assert_eq!(outcome.reply, None);
    assert_eq!(outcome.drives, vec![Drive { driver_id: 2, value: true }]);
    assert_eq!(executor.levels(), &[false, true, true]);
}

#[test]
fn protected_actuation_in_standby_is_refused() {
    let mut executor = executor();
    let outcome = give(&mut executor, Command::Actuate { driver_id: 0, value: true });
    assert_eq!(outcome.reply, Some(Reply::Permission));
    assert_eq!(outcome.drives, vec![]);
    assert_eq!(executor.levels(), &[false, true, false]);
    let original = "{\"type\":\"Actuate\",\"driver_id\":0,\"value\":true}";
    let frame = Reply::Permission.message(original).to_json();
    let value = serde_json::from_slice::<serde_json::Value>(&frame).unwrap();
    assert_eq!(value["type"].as_str(), Some("Error"));
    assert_eq!(value["cause"]["type"].as_str(), Some("Permission"));
    assert_eq!(value["cause"].as_object().unwrap().len(), 1);
}

#[test]
fn protected_actuation_during_ignition_is_carried_out() {
    let mut executor = executor();
    assert_eq!(give(&mut executor, Command::Ignition).reply, None);
    let outcome = give(&mut executor, Command::Actuate { driver_id: 0, value: true });
    assert_eq!(outcome.reply, None);
    assert_eq!(outcome.drives, vec![Drive { driver_id: 0, value: true }]);
    assert_eq!(executor.levels(), &[true, true, false]);
}

#[test]
fn actuation_of_a_missing_driver_is_refused() {
    let mut executor = executor();
    let outcome = give(&mut executor, Command::Actuate { driver_id: 3, value: true });
    assert_eq!(outcome.reply, Some(Reply::UnknownDriver));
    assert_eq!(outcome.drives, vec![]);
    assert_eq!(executor.levels(), &[false, true, false]);
    let outcome = give(&mut executor, Command::Actuate { driver_id: 255, value: true });
    assert_eq!(outcome.reply, Some(Reply::UnknownDriver));
}

#[test]
fn levels_are_the_cumulative_effect_of_the_commands() {
    let mut executor = executor();
    give(&mut executor, Command::Actuate { driver_id: 1, value: false });
    give(&mut executor, Command::Actuate { driver_id: 2, value: true });
    give(&mut executor, Command::Actuate { driver_id: 0, value: true });
    give(&mut executor, Command::Ready);
    give(&mut executor, Command::Actuate { driver_id: 2, value: false });
    give(&mut executor, Command::Actuate { driver_id: 2, value: true });
    assert_eq!(executor.levels(), &[false, false, true]);
    let outcome = give(&mut executor, Command::EmergencyStop);
    assert_eq!(outcome.reply, None);
    assert_eq!(outcome.drives, safe_drives());
    assert_eq!(executor.levels(), &[false, true, false]);
    give(&mut executor, Command::Actuate { driver_id: 2, value: true });
    assert_eq!(executor.levels(), &[false, true, true]);
    assert_eq!(executor.state(), ControllerState::Standby);
}

#[test]
fn ignition_enters_ignite_and_starts_the_sequence() {
    let mut executor = executor();
    let outcome = give(&mut executor, Command::Ignition);
    assert_eq!(outcome.reply, None);
    assert_eq!(outcome.drives, vec![]);
    assert_eq!(executor.state(), ControllerState::Ignite);
    assert!(executor.running());
}

#[test]
fn a_second_ignition_is_refused() {
    let mut executor = executor();
    assert_eq!(give(&mut executor, Command::Ignition).reply, None);
    let outcome = give(&mut executor, Command::Ignition);
    assert_eq!(outcome.reply, Some(Reply::SequenceInProgress));
    assert_eq!(executor.state(), ControllerState::Ignite);
    let original = "{\"type\":\"Ignition\"}";
    let message = Reply::SequenceInProgress.message(original);
    assert!(matches!(
        message,
        Message::Error {
            cause: ErrorCause::Malformed { original_message: "{\"type\":\"Ignition\"}" },
            diagnostic: "sequence in progress"
        }
    ));
    let value = serde_json::from_slice::<serde_json::Value>(&message.to_json()).unwrap();
    assert_eq!(value["type"].as_str(), Some("Error"));
    assert_eq!(value["cause"]["type"].as_str(), Some("Malformed"));
    assert_eq!(value["cause"]["original_message"].as_str(), Some(original));
    assert_eq!(value["diagnostic"].as_str(), Some("sequence in progress"));
}

#[test]
fn replies_become_messages() {
    assert!(matches!(Reply::Ready.message("x"), Message::Ready));
    assert!(matches!(
        Reply::Permission.message("x"),
        Message::Error { cause: ErrorCause::Permission, .. }
    ));
    assert!(matches!(
        Reply::UnknownDriver.message("x"),
        Message::Error {
            cause: ErrorCause::Malformed { original_message: "x" },
            diagnostic: "no such driver"
        }
    ));
}

#[test]
fn without_a_sequence_nothing_is_due() {
    let mut executor = executor();
    assert_eq!(executor.advance(0), Progress::Idle);
    assert_eq!(executor.advance(u64::MAX), Progress::Idle);
}

#[test]
fn the_sequence_runs_on_absolute_deadlines() {
    let mut executor = executor();
    executor.handle_command(&Command::Ignition, Timestamp { nanos: 0 }, 1000);
    assert_eq!(executor.advance(1000), Progress::Actuated { drive: Drive { driver_id: 0, value: true } });
    assert_eq!(executor.levels(), &[true, true, false]);
    assert_eq!(executor.advance(1000), Progress::Wait { until: 1000 + 500 * MS });
    assert_eq!(executor.advance(999 + 500 * MS), Progress::Wait { until: 1000 + 500 * MS });
    assert_eq!(
        executor.advance(1000 + 500 * MS),
        Progress::Actuated { drive: Drive { driver_id: 2, value: true } }
    );
    assert_eq!(executor.levels(), &[true, true, true]);
    // A late wake does not move the deadlines that follow.
    assert_eq!(executor.advance(1000 + 1400 * MS), Progress::Slept);
    assert_eq!(executor.advance(1000 + 1400 * MS), Progress::Wait { until: 1000 + 1500 * MS });
    assert_eq!(
        executor.advance(1000 + 3000 * MS),
        Progress::Actuated { drive: Drive { driver_id: 0, value: false } }
    );
    assert_eq!(executor.advance(1000 + 3000 * MS), Progress::Slept);
    assert_eq!(executor.state(), ControllerState::Ignite);
    assert_eq!(executor.levels(), &[false, true, true]);
    assert_eq!(executor.advance(1000 + 3000 * MS), Progress::Finished { drives: safe_drives() });
    assert_eq!(executor.state(), ControllerState::Standby);
    assert_eq!(executor.levels(), &[false, true, false]);
    assert!(!executor.running());
    assert_eq!(executor.advance(1000 + 3000 * MS), Progress::Idle);
}

#[test]
fn an_emergency_stop_preempts_the_sequence() {
    let mut executor = executor();
    executor.handle_command(&Command::Ignition, Timestamp { nanos: 0 }, 0);
    assert_eq!(executor.advance(0), Progress::Actuated { drive: Drive { driver_id: 0, value: true } });
    assert_eq!(executor.advance(0), Progress::Wait { until: 500 * MS });
    assert_eq!(
        executor.advance(500 * MS),
        Progress::Actuated { drive: Drive { driver_id: 2, value: true } }
    );
    assert_eq!(executor.levels(), &[true, true, true]);
    let outcome = executor.handle_command(&Command::EmergencyStop, Timestamp { nanos: 0 }, 500 * MS);
    assert_eq!(outcome.reply, None);
    assert_eq!(outcome.drives, safe_drives());
    assert_eq!(executor.state(), ControllerState::Standby);
    assert_eq!(executor.levels(), &[false, true, false]);
    assert!(!executor.running());
    assert_eq!(executor.advance(2000 * MS), Progress::Idle);
    assert_eq!(executor.levels(), &[false, true, false]);
    // The next ignition is accepted and starts from the first step.
    let outcome = executor.handle_command(&Command::Ignition, Timestamp { nanos: 0 }, 3000 * MS);
    assert_eq!(outcome.reply, None);
    assert_eq!(executor.state(), ControllerState::Ignite);
    assert_eq!(executor.advance(3000 * MS), Progress::Actuated { drive: Drive { driver_id: 0, value: true } });
    assert_eq!(executor.advance(3000 * MS), Progress::Wait { until: 3500 * MS });
}

#[test]
fn an_emergency_stop_in_standby_makes_safe_too() {
    let mut executor = executor();
    give(&mut executor, Command::Actuate { driver_id: 1, value: false });
    let outcome = give(&mut executor, Command::EmergencyStop);
    assert_eq!(outcome.drives, safe_drives());
    assert_eq!(executor.levels(), &[false, true, false]);
    assert_eq!(executor.state(), ControllerState::Standby);
}

#[test]
fn an_empty_sequence_is_over_at_once() {
    let mut config = configuration();
    config.ignition_sequence.clear();
    let mut executor = Executor::new(&config).unwrap();
    give(&mut executor, Command::Ignition);
    assert_eq!(executor.state(), ControllerState::Ignite);
    assert_eq!(executor.advance(0), Progress::Finished { drives: safe_drives() });
    assert_eq!(executor.state(), ControllerState::Standby);
}

#[test]
fn a_deadline_beyond_the_clock_is_the_last_time_of_the_clock() {
    let mut executor = executor();
    executor.handle_command(&Command::Ignition, Timestamp { nanos: 0 }, u64::MAX - 5);
    assert_eq!(
        executor.advance(u64::MAX - 5),
        Progress::Actuated { drive: Drive { driver_id: 0, value: true } }
    );
    assert_eq!(executor.advance(u64::MAX - 1), Progress::Wait { until: u64::MAX });
    assert_eq!(
        executor.advance(u64::MAX),
        Progress::Actuated { drive: Drive { driver_id: 2, value: true } }
    );
}

fn carry_out(lines: &mut [bool], drives: &[Drive]) {
    for drive in drives {
        lines[usize::from(drive.driver_id)] = drive.value;
    }
}

#[test]
fn the_lines_follow_the_stand() {
    let mut executor = executor();
    let mut lines = vec![false, true, false];
    let commands = [
        Command::Actuate { driver_id: 1, value: false },
        Command::Actuate { driver_id: 0, value: true },
        Command::Actuate { driver_id: 7, value: true },
        Command::Ready,
        Command::Ignition,
        Command::Actuate { driver_id: 0, value: true },
        Command::Ignition,
        Command::EmergencyStop,
        Command::Actuate { driver_id: 2, value: true },
        Command::Ignition,
    ];
    for command in commands {
        let outcome = give(&mut executor, command);
        carry_out(&mut lines, &outcome.drives);
        assert_eq!(lines.as_slice(), executor.levels());
    }
    let mut now = 1000;
    loop {
        match executor.advance(now) {
            Progress::Idle => break,
            Progress::Wait { until } => now = until,
            Progress::Actuated { drive } => carry_out(&mut lines, &[drive]),
            Progress::Slept => {}
            Progress::Finished { drives } => carry_out(&mut lines, &drives),
        }
        assert_eq!(lines.as_slice(), executor.levels());
    }
    assert_eq!(now, 1000 + 2000 * MS);
    assert_eq!(lines, vec![false, true, false]);
    assert_eq!(executor.state(), ControllerState::Standby);
}

#[test]
fn the_observer_sees_the_safe_levels_after_an_emergency_stop() {
    let config = configuration();
    let mut executor = Executor::new(&config).unwrap();
    let mut observer = slonk::observer::DriverObserver::new(&config);
    let mut lines = vec![false, true, false];
    executor.handle_command(&Command::Ignition, Timestamp { nanos: 0 }, 0);
    for now in [0, 0, 500 * MS] {
        if let Progress::Actuated { drive } = executor.advance(now) {
            carry_out(&mut lines, &[drive]);
        }
    }
    let seen = observer.observe(&lines, Timestamp { nanos: 500_000_000 }).unwrap();
    assert_eq!(seen.values, vec![true, true, true]);
    let outcome = executor.handle_command(&Command::EmergencyStop, Timestamp { nanos: 0 }, 500 * MS);
    carry_out(&mut lines, &outcome.drives);
    let seen = observer.observe(&lines, Timestamp { nanos: 550_000_000 }).unwrap();
    assert_eq!(seen.values, vec![false, true, false]);
    assert_eq!(seen.row, b"550000000,false,true,false\n".to_vec());
    assert_eq!(give(&mut executor, Command::Ignition).reply, None);
}
