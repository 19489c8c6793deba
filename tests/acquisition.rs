use shared_adc::system::{Acquisition, CompletionOutcome, TickOutcome};
use shared_adc::unit::{AcquisitionUnit, ConverterConfig, UnitState};

fn make_units(lens: &[usize]) -> Vec<AcquisitionUnit> {
    let mut v = Vec::new();
    for (i, &n) in lens.iter().enumerate() {
        let channels: Vec<u8> = (0..n as u8).map(|c| c + 2 * i as u8).collect();
        v.push(AcquisitionUnit::new(i, ConverterConfig::new(channels, 28), n));
    }
    v
}

fn make_system(lens: &[usize], limit: Option<u64>) -> Acquisition {
    Acquisition::new(make_units(lens), limit).expect("valid units")
}

fn armed_count(sys: &Acquisition) -> usize {
    let mut n = 0;
    if sys.armed_id().is_some() {
        n += 1;
    }
    for id in 0..sys.unit_count() {
        if let Some(u) = sys.unit(id) {
            if u.state == UnitState::Armed {
                n += 1;
            }
        }
    }
    n
}

#[test]
fn new_rejects_empty_unit_set() {
    assert!(Acquisition::new(Vec::new(), None).is_none());
}

#[test]
fn new_rejects_misnumbered_units() {
    let mut us = make_units(&[2, 3]);
    us[1].id = 0;
    assert!(Acquisition::new(us, None).is_none());
}

#[test]
fn new_rejects_non_idle_unit() {
    let mut us = make_units(&[2, 3]);
    us[0].state = UnitState::Armed;
    assert!(Acquisition::new(us, None).is_none());
}

#[test]
fn new_starts_quiescent() {
    let sys = make_system(&[2, 3], None);
    assert_eq!(sys.unit_count(), 2);
    assert_eq!(sys.armed_id(), None);
    assert_eq!(sys.current_turn(), 0);
    assert!(!sys.is_halted());
    for id in 0..2 {
        let u = sys.unit(id).expect("available");
        assert_eq!(u.id, id);
        assert_eq!(u.state, UnitState::Idle);
        assert_eq!(sys.misses_of(id), 0);
    }
    assert_eq!(sys.unit(0).unwrap().buffer, vec![0u16, 0]);
    assert_eq!(sys.unit(1).unwrap().config.channels, vec![2u8, 3, 4]);
}

#[test]
fn tick_arms_unit_whose_turn_it_is() {
    let mut sys = make_system(&[2, 3], None);
    assert_eq!(sys.tick(), TickOutcome::Armed { id: 0 });
    assert_eq!(sys.armed_id(), Some(0));
    assert!(sys.unit(0).is_none());
    assert_eq!(sys.current_turn(), 1);
}

#[test]
fn armed_unit_returns_idle_with_samples() {
    let mut sys = make_system(&[2, 3], None);
    assert_eq!(sys.tick(), TickOutcome::Armed { id: 0 });
    assert_eq!(sys.complete(vec![1234, 4321]), CompletionOutcome::Retired { id: 0 });
    let u = sys.unit(0).expect("back in the register");
    assert_eq!(u.state, UnitState::Idle);
    assert_eq!(u.buffer, vec![1234u16, 4321]);
    assert_eq!(sys.armed_id(), None);
}

#[test]
fn round_robin_visits_every_unit_once_per_cycle() {
    let lens = [2usize, 3, 1, 4];
    let mut sys = make_system(&lens, None);
    let mut seen = Vec::new();
    for _ in 0..lens.len() {
        match sys.tick() {
            TickOutcome::Armed { id } => {
                seen.push(id);
                let samples = vec![7u16; lens[id]];
                assert_eq!(sys.complete(samples), CompletionOutcome::Retired { id });
            }
            other => panic!("unexpected {:?}", other),
        }
    }
    assert_eq!(seen, vec![0, 1, 2, 3]);
    assert_eq!(sys.current_turn(), 0);
    let mut again = Vec::new();
    for _ in 0..lens.len() {
        if let TickOutcome::Armed { id } = sys.tick() {
            again.push(id);
            sys.complete(vec![1u16; lens[id]]);
        }
    }
    assert_eq!(again, seen);
}

#[test]
fn tick_while_channel_busy_reports_resource_busy() {
    let mut sys = make_system(&[2, 3], None);
    assert_eq!(sys.tick(), TickOutcome::Armed { id: 0 });
    assert_eq!(sys.tick(), TickOutcome::ResourceBusy { id: 1, misses: 1 });
    assert_eq!(sys.armed_id(), Some(0));
    assert!(sys.unit(1).is_some());
    assert_eq!(sys.current_turn(), 0);
    assert_eq!(sys.tick(), TickOutcome::ResourceBusy { id: 0, misses: 1 });
}

#[test]
fn miss_count_resets_after_successful_arm() {
    let mut sys = make_system(&[2, 3], None);
    sys.tick();
    sys.tick();
    assert_eq!(sys.misses_of(1), 1);
    sys.complete(vec![0, 0]);
    assert_eq!(sys.current_turn(), 0);
    assert_eq!(sys.arm(1), TickOutcome::Armed { id: 1 });
    assert_eq!(sys.misses_of(1), 0);
}

#[test]
fn spurious_completion_changes_nothing() {
    let mut sys = make_system(&[2, 3], None);
    assert_eq!(sys.complete(vec![1, 2]), CompletionOutcome::UnexpectedCompletion);
    assert_eq!(sys.armed_id(), None);
    assert_eq!(sys.current_turn(), 0);
    assert_eq!(sys.unit(0).unwrap().buffer, vec![0u16, 0]);
    assert_eq!(sys.tick(), TickOutcome::Armed { id: 0 });
    assert_eq!(sys.complete(vec![5, 6]), CompletionOutcome::Retired { id: 0 });
    assert_eq!(sys.complete(vec![8, 9]), CompletionOutcome::UnexpectedCompletion);
    assert_eq!(sys.unit(0).unwrap().buffer, vec![5u16, 6]);
}

#[test]
fn wrong_sized_transfer_halts_subsystem() {
    let mut sys = make_system(&[2, 3], None);
    sys.tick();
    assert_eq!(sys.complete(vec![1, 2, 3]), CompletionOutcome::InvariantViolation { id: 0 });
    assert!(sys.is_halted());
    assert_eq!(sys.armed_id(), Some(0));
    assert_eq!(sys.tick(), TickOutcome::Halted);
    assert_eq!(sys.complete(vec![1, 2]), CompletionOutcome::Halted);
    assert_eq!(sys.current_turn(), 1);
}

#[test]
fn never_completing_unit_stays_busy_others_unaffected() {
    let mut sys = make_system(&[2, 3], None);
    // unit 0's transfer never comes back: it is gone from the register
    let stuck = sys.take(0).expect("present");
    assert_eq!(stuck.id, 0);
    for round in 1..=10u64 {
        assert_eq!(sys.tick(), TickOutcome::ResourceBusy { id: 0, misses: round });
        assert_eq!(sys.tick(), TickOutcome::Armed { id: 1 });
        assert_eq!(sys.complete(vec![round as u16; 3]), CompletionOutcome::Retired { id: 1 });
        assert_eq!(sys.unit(1).unwrap().buffer, vec![round as u16; 3]);
        assert_eq!(sys.misses_of(1), 0);
    }
    assert!(sys.unit(0).is_none());
}

#[test]
fn persistent_misses_reach_configuration_error() {
    let mut sys = make_system(&[2, 3], Some(3));
    assert!(sys.take(0).is_some());
    assert_eq!(sys.arm(0), TickOutcome::ResourceBusy { id: 0, misses: 1 });
    assert_eq!(sys.arm(0), TickOutcome::ResourceBusy { id: 0, misses: 2 });
    assert_eq!(sys.arm(0), TickOutcome::ConfigurationError { id: 0, misses: 3 });
    assert_eq!(sys.arm(0), TickOutcome::ConfigurationError { id: 0, misses: 4 });
    assert_eq!(sys.arm(1), TickOutcome::Armed { id: 1 });
}

#[test]
fn put_returns_lent_unit() {
    let mut sys = make_system(&[2, 3], None);
    let u = sys.take(1).expect("present");
    assert!(sys.take(1).is_none());
    assert!(sys.put(u).is_none());
    assert_eq!(sys.tick(), TickOutcome::Armed { id: 0 });
    assert_eq!(sys.complete(vec![3, 3]), CompletionOutcome::Retired { id: 0 });
    assert_eq!(sys.tick(), TickOutcome::Armed { id: 1 });
}

#[test]
fn put_refuses_occupied_or_foreign_id() {
    let mut sys = make_system(&[2, 3], None);
    let dup = AcquisitionUnit::new(1, ConverterConfig::new(vec![9], 1), 1);
    let back = sys.put(dup).expect("refused");
    assert_eq!(back.id, 1);
    let foreign = AcquisitionUnit::new(5, ConverterConfig::new(vec![9], 1), 1);
    assert!(sys.put(foreign).is_some());
    assert_eq!(sys.unit(1).unwrap().buffer.len(), 3);
}

#[test]
fn put_refuses_unit_in_flight() {
    let mut sys = make_system(&[2, 3], None);
    sys.tick();
    let twin = AcquisitionUnit::new(0, ConverterConfig::new(vec![0, 1], 28), 2);
    assert!(sys.put(twin).is_some());
    assert!(sys.unit(0).is_none());
}

#[test]
fn at_most_one_unit_armed_over_mixed_events() {
    let lens = [2usize, 3, 1];
    let mut sys = make_system(&lens, None);
    let mut state: u32 = 12345;
    for _ in 0..500 {
        state = state.wrapping_mul(1103515245).wrapping_add(12345);
        let pick = (state >> 16) % 3;
        if pick == 0 {
            sys.tick();
        } else if pick == 1 {
            sys.arm(((state >> 8) % 3) as usize);
        } else {
            let n = match sys.armed_id() {
                Some(id) => lens[id],
                None => 2,
            };
            sys.complete(vec![(state & 0xfff) as u16; n]);
        }
        assert!(armed_count(&sys) <= 1);
        assert!(!sys.is_halted());
    }
}

#[test]
fn in_flight_shows_armed_unit_configuration() {
    let mut sys = make_system(&[2, 3], None);
    assert!(sys.in_flight().is_none());
    sys.arm(1);
    let u = sys.in_flight().expect("in flight");
    assert_eq!(u.id, 1);
    assert_eq!(u.state, UnitState::Armed);
    assert_eq!(u.config.channels, vec![2u8, 3, 4]);
    sys.complete(vec![1, 2, 3]);
    assert!(sys.in_flight().is_none());
}
