use slonk::state::{ControllerState, IllegalTransition, StateGuard};

const STATES: [ControllerState; 3] =
    [ControllerState::Standby, ControllerState::PreIgnite, ControllerState::Ignite];

fn in_table(from: ControllerState, to: ControllerState) -> bool {
    matches!(
        (from, to),
        (ControllerState::Standby, ControllerState::PreIgnite)
            | (ControllerState::PreIgnite, ControllerState::Standby)
            | (ControllerState::PreIgnite, ControllerState::Ignite)
            | (ControllerState::Ignite, ControllerState::Standby)
    )
}

#[test]
fn every_pair_obeys_the_table() {
    for from in STATES {
        for to in STATES {
            let mut guard = StateGuard::new(from);
            assert_eq!(guard.get(), from);
            let outcome = guard.try_transition(to);
            if in_table(from, to) {
                assert_eq!(outcome, Ok(()));
                assert_eq!(guard.get(), to);
            } else {
                assert_eq!(outcome, Err(IllegalTransition { current: from, requested: to }));
                assert_eq!(guard.get(), from);
            }
        }
    }
}

#[test]
fn standby_does_not_lead_straight_to_ignite() {
    let mut guard = StateGuard::new(ControllerState::Standby);
    assert_eq!(
        guard.try_transition(ControllerState::Ignite),
        Err(IllegalTransition {
            current: ControllerState::Standby,
            requested: ControllerState::Ignite
        })
    );
    assert_eq!(guard.try_transition(ControllerState::PreIgnite), Ok(()));
    assert_eq!(guard.try_transition(ControllerState::Ignite), Ok(()));
    assert_eq!(guard.get(), ControllerState::Ignite);
}

#[test]
fn ignite_does_not_lead_back_to_pre_ignite() {
    let mut guard = StateGuard::new(ControllerState::Ignite);
    assert_eq!(
        guard.try_transition(ControllerState::PreIgnite),
        Err(IllegalTransition {
            current: ControllerState::Ignite,
            requested: ControllerState::PreIgnite
        })
    );
    assert_eq!(guard.try_transition(ControllerState::Standby), Ok(()));
}

#[test]
fn no_state_leads_to_itself() {
    for state in STATES {
        let mut guard = StateGuard::new(state);
        assert_eq!(
            guard.try_transition(state),
            Err(IllegalTransition { current: state, requested: state })
        );
        assert_eq!(guard.get(), state);
    }
}

#[test]
fn force_standby_works_from_every_state() {
    for state in STATES {
        let mut guard = StateGuard::new(state);
        guard.force_standby();
        assert_eq!(guard.get(), ControllerState::Standby);
    }
}
