use midea_ir::pulse::{run_lengths, Hold, IrGenState, IrOutputState};

#[test]
fn fresh_encoder_finishes_with_a_single_zero() {
    let state = IrGenState::default();
    assert_eq!(state.ir_end(), vec![0]);
}

#[test]
fn first_high_hold_lengthens_the_initial_run() {
    let mut state = IrGenState::default();
    state.ir_high(4400);
    assert_eq!(state.ir_end(), vec![4400]);
}

#[test]
fn first_low_hold_closes_the_empty_initial_run() {
    let mut state = IrGenState::default();
    state.ir_low(5);
    assert_eq!(state.ir_end(), vec![0, 5]);
}

#[test]
fn same_level_holds_are_summed() {
    let mut state = IrGenState::default();
    state.ir_high(100);
    state.ir_high(200);
    state.ir_high(7);
    state.ir_low(50);
    state.ir_low(25);
    state.ir_high(1);
    assert_eq!(state.ir_end(), vec![307, 75, 1]);
}

#[test]
fn one_hold_of_the_sum_gives_the_same_output() {
    let mut many = IrGenState::default();
    many.ir_low(3);
    many.ir_high(10);
    many.ir_high(20);
    many.ir_high(30);
    many.ir_low(4);
    let mut one = IrGenState::default();
    one.ir_low(3);
    one.ir_high(60);
    one.ir_low(4);
    assert_eq!(many.ir_end(), one.ir_end());
}

#[test]
fn zero_hold_of_the_other_level_makes_no_transition() {
    let mut state = IrGenState::default();
    state.ir_high(100);
    state.ir_low(0);
    state.ir_high(50);
    state.ir_low(10);
    assert_eq!(state.ir_end(), vec![150, 10]);
}

#[test]
fn zero_holds_anywhere_leave_the_output_unchanged() {
    let holds: [(IrOutputState, u64); 5] = [
        (IrOutputState::IrHigh, 540),
        (IrOutputState::IrLow, 1620),
        (IrOutputState::IrLow, 40),
        (IrOutputState::IrHigh, 540),
        (IrOutputState::IrLow, 540),
    ];
    let mut plain = IrGenState::default();
    for (level, us) in holds {
        plain.ir_low_or_high(us, level);
    }
    let expected = plain.ir_end();
    assert_eq!(expected, vec![540, 1660, 540, 540]);
    for at in 0..=holds.len() {
        for zero_level in [IrOutputState::IrHigh, IrOutputState::IrLow] {
            let mut state = IrGenState::default();
            for (i, (level, us)) in holds.iter().enumerate() {
                if i == at {
                    state.ir_low_or_high(0, zero_level);
                }
                state.ir_low_or_high(*us, *level);
            }
            if at == holds.len() {
                state.ir_low_or_high(0, zero_level);
            }
            assert_eq!(state.ir_end(), expected);
        }
    }
}

#[test]
fn zero_hold_on_a_fresh_encoder_changes_nothing() {
    let mut state = IrGenState::default();
    state.ir_low(0);
    state.ir_high(0);
    assert_eq!(state.ir_end(), vec![0]);
}

#[test]
fn accumulation_stops_at_the_maximum_and_does_not_wrap() {
    let mut state = IrGenState::default();
    state.ir_high(u64::MAX);
    state.ir_high(1);
    state.ir_high(1000);
    state.ir_low(u64::MAX - 1);
    state.ir_low(1);
    state.ir_low(1);
    assert_eq!(state.ir_end(), vec![u64::MAX, u64::MAX]);
}

#[test]
fn accumulation_up_to_the_maximum_is_exact() {
    let mut state = IrGenState::default();
    state.ir_high(u64::MAX - 10);
    state.ir_high(10);
    assert_eq!(state.ir_end(), vec![u64::MAX]);
    let mut state = IrGenState::default();
    state.ir_high(u64::MAX - 10);
    state.ir_high(9);
    assert_eq!(state.ir_end(), vec![u64::MAX - 1]);
}

#[test]
fn ir_low_or_high_is_what_ir_high_and_ir_low_do() {
    let mut by_level = IrGenState::default();
    by_level.ir_low_or_high(10, IrOutputState::IrHigh);
    by_level.ir_low_or_high(20, IrOutputState::IrLow);
    by_level.ir_low_or_high(30, IrOutputState::IrLow);
    by_level.ir_low_or_high(40, IrOutputState::IrHigh);
    let mut by_name = IrGenState::default();
    by_name.ir_high(10);
    by_name.ir_low(20);
    by_name.ir_low(30);
    by_name.ir_high(40);
    let expected: Vec<u64> = vec![10, 50, 40];
    assert_eq!(by_level.ir_end(), expected);
    assert_eq!(by_name.ir_end(), expected);
}

/// Levels of the runs of `holds`, worked out without the encoder: a run
/// starts wherever a hold of some length follows one at the other level.
fn run_levels(holds: &[(IrOutputState, u64)]) -> Vec<IrOutputState> {
    let mut levels = vec![IrOutputState::IrHigh];
    for (level, us) in holds {
        if *us > 0 && levels.last() != Some(level) {
            levels.push(*level);
        }
    }
    levels
}

#[test]
fn output_has_high_at_even_and_low_at_odd_positions() {
    let high = IrOutputState::IrHigh;
    let low = IrOutputState::IrLow;
    let cases: Vec<Vec<(IrOutputState, u64)>> = vec![
        vec![],
        vec![(low, 1)],
        vec![(high, 1), (high, 2), (low, 3), (high, 4), (high, 0), (low, 0), (high, 5)],
        vec![(low, 0), (low, 7), (low, 8), (high, 0), (low, 9), (high, 1), (low, 1)],
        vec![(high, 0), (high, 0), (low, 2), (high, 2), (low, 2), (high, 2)],
    ];
    for holds in cases {
        let mut state = IrGenState::default();
        for (level, us) in &holds {
            state.ir_low_or_high(*us, *level);
        }
        let pulses = state.ir_end();
        let levels = run_levels(&holds);
        assert_eq!(pulses.len(), levels.len());
        for (k, level) in levels.iter().enumerate() {
            let expected = if k % 2 == 0 { high } else { low };
            assert_eq!(*level, expected);
        }
    }
}

#[test]
fn output_lasts_as_long_as_the_holds() {
    let mut state = IrGenState::default();
    let holds: [(IrOutputState, u64); 6] = [
        (IrOutputState::IrLow, 11),
        (IrOutputState::IrLow, 0),
        (IrOutputState::IrHigh, 22),
        (IrOutputState::IrHigh, 33),
        (IrOutputState::IrLow, 44),
        (IrOutputState::IrHigh, 55),
    ];
    let mut asked: u64 = 0;
    for (level, us) in holds {
        state.ir_low_or_high(us, level);
        asked += us;
    }
    let pulses = state.ir_end();
    assert_eq!(pulses, vec![0, 11, 55, 44, 55]);
    assert_eq!(pulses.iter().sum::<u64>(), asked);
}

fn hold(level: IrOutputState, us: u64) -> Hold {
    Hold { level, us }
}

#[test]
fn run_lengths_of_no_requests() {
    assert_eq!(run_lengths(&Vec::new()), vec![0]);
}

#[test]
fn run_lengths_merge_neighbours_of_one_level() {
    let high = IrOutputState::IrHigh;
    let low = IrOutputState::IrLow;
    let reqs = vec![
        hold(high, 4400),
        hold(low, 4400),
        hold(high, 540),
        hold(low, 1620),
        hold(low, 1000),
        hold(high, 0),
        hold(low, 380),
        hold(high, 540),
    ];
    assert_eq!(run_lengths(&reqs), vec![4400, 4400, 540, 3000, 540]);
}

#[test]
fn run_lengths_are_what_the_encoder_gives_step_by_step() {
    let high = IrOutputState::IrHigh;
    let low = IrOutputState::IrLow;
    let reqs = vec![hold(low, 9), hold(low, 1), hold(high, 3), hold(low, 0), hold(high, 4)];
    let mut state = IrGenState::default();
    for req in &reqs {
        state.ir_low_or_high(req.us, req.level);
    }
    assert_eq!(run_lengths(&reqs), state.ir_end());
    assert_eq!(run_lengths(&reqs), vec![0, 10, 7]);
}

#[test]
fn run_lengths_of_same_level_requests_is_their_sum() {
    let low = IrOutputState::IrLow;
    let durations: [u64; 6] = [5, 0, 17, 1, 0, 1000];
    let reqs: Vec<Hold> = durations.iter().map(|us| hold(low, *us)).collect();
    assert_eq!(run_lengths(&reqs), vec![0, 1023]);
    let high = IrOutputState::IrHigh;
    let reqs: Vec<Hold> = durations.iter().map(|us| hold(high, *us)).collect();
    assert_eq!(run_lengths(&reqs), vec![1023]);
    let reqs = vec![hold(low, u64::MAX), hold(low, u64::MAX), hold(low, 3)];
    assert_eq!(run_lengths(&reqs), vec![0, u64::MAX]);
}
