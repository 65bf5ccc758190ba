use chip8::machine::CycleError;
use chip8::machine::DecodeError;
use chip8::machine::Machine;
use chip8::pacing::ideal_burst_ms;
use chip8::pacing::remaining_wait_ms;
use chip8::pacing::run_burst;

#[test]
fn ideal_duration_of_a_burst() {
    assert_eq!(ideal_burst_ms(5, 500), 10);
    assert_eq!(ideal_burst_ms(100, 1000), 100);
    assert_eq!(ideal_burst_ms(0, 500), 0);
}

#[test]
fn residual_wait_fills_up_to_the_ideal() {
    assert_eq!(remaining_wait_ms(100, 103, 5, 500), 7);
    assert_eq!(remaining_wait_ms(100, 100, 5, 500), 10);
    assert_eq!(remaining_wait_ms(100, 112, 5, 500), 0);
    assert_eq!(remaining_wait_ms(100, 110, 5, 500), 0);
}

#[test]
fn residual_wait_with_a_clock_that_moved_backwards() {
    assert_eq!(remaining_wait_ms(100, 90, 5, 500), 10);
}

#[test]
fn elapsed_plus_wait_never_undershoots_the_ideal() {
    for elapsed in 0..30u64 {
        let wait = remaining_wait_ms(100, 100 + elapsed, 5, 500);
        assert!(elapsed + wait >= 10);
    }
}

#[test]
fn burst_runs_the_requested_cycles() {
    let mut m = Machine::new(vec![0x60, 0x01, 0x61, 0x02, 0x62, 0x03]).expect("fits");
    assert!(m.is_well_formed());
    let r = run_burst(&mut m, 3);
    assert_eq!(r, None);
    assert_eq!(m.program_counter(), 518);
    assert_eq!(m.register(2), 3);
}

#[test]
fn burst_stops_early_once_finished() {
    let mut m = Machine::new(vec![0x60, 0x01, 0x00, 0x00, 0x61, 0x02]).expect("fits");
    let r = run_burst(&mut m, 5);
    assert_eq!(r, None);
    assert!(m.is_finished());
    assert_eq!(m.program_counter(), 516);
    assert_eq!(m.register(1), 0);
}

#[test]
fn burst_reports_the_first_fatal_condition() {
    let mut m = Machine::new(vec![0xFF, 0xFF]).expect("fits");
    let r = run_burst(&mut m, 5);
    assert_eq!(r, Some(CycleError::Decode(DecodeError::UnknownOpcode(0xFFFF))));
    assert!(m.is_finished());
}
