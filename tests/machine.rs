use intcode::computer::{Computer, Event, Finish};
use intcode::instruction::{decode_mode, decode_opcode, Fault, Mode, Opcode};

fn drained(program: &[i64], inputs: &[i64]) -> (Vec<i64>, Finish) {
    let mut c = Computer::new(program);
    for &v in inputs {
        c.push_input(v);
    }
    c.run_to_halt(100_000)
}

#[test]
fn multiply_with_immediate_operand() {
    let mut c = Computer::new(&[1002, 4, 3, 4, 33]);
    assert_eq!(c.step(), Ok(Event::Continue));
    assert_eq!(c.get_value(4), 99);
    assert_eq!(c.ip(), 4);
    assert_eq!(c.step(), Ok(Event::Halted));
}

#[test]
fn self_test_program_halts_with_3500() {
    let mut c = Computer::new(&[1, 9, 10, 3, 2, 3, 11, 0, 99, 30, 40, 50]);
    assert_eq!(c.run(1000), Ok(Event::Halted));
    assert_eq!(c.get_value(0), 3500);
    assert_eq!(c.get_value(3), 70);
}

#[test]
fn small_programs_final_memory() {
    let mut c = Computer::new(&[1, 1, 1, 4, 99, 5, 6, 0, 99]);
    assert_eq!(c.run(1000), Ok(Event::Halted));
    let memory: Vec<i64> = (0..9).map(|a| c.get_value(a)).collect();
    assert_eq!(memory, vec![30, 1, 1, 4, 2, 5, 6, 0, 99]);

    let mut c = Computer::new(&[2, 4, 4, 5, 99, 0]);
    assert_eq!(c.run(1000), Ok(Event::Halted));
    assert_eq!(c.get_value(5), 9801);
}

#[test]
fn patched_memory_before_run() {
    let mut c = Computer::new(&[1, 0, 0, 0, 99, 7, 8]);
    c.set_value(1, 5);
    c.set_value(2, 6);
    assert_eq!(c.run(1000), Ok(Event::Halted));
    assert_eq!(c.get_value(0), 15);
}

#[test]
fn echo_program() {
    assert_eq!(drained(&[3, 0, 4, 0, 99], &[5]), (vec![5], Finish::Halted));
}

#[test]
fn echo_waits_for_input() {
    let mut c = Computer::new(&[3, 0, 4, 0, 99]);
    assert_eq!(c.run(1000), Ok(Event::AwaitingInput));
    assert_eq!(c.ip(), 0);
    c.push_input(-17);
    assert_eq!(c.run(1000), Ok(Event::Output(-17)));
    assert_eq!(c.run(1000), Ok(Event::Halted));
    assert_eq!(c.run(1000), Ok(Event::Halted));
}

#[test]
fn echo_without_input_reports_closed_input() {
    assert_eq!(drained(&[3, 0, 4, 0, 99], &[]), (vec![], Finish::InputClosed));
}

#[test]
fn quine_outputs_its_own_source() {
    let program = vec![
        109, 1, 204, -1, 1001, 100, 1, 100, 1008, 100, 16, 101, 1006, 101, 0, 99,
    ];
    assert_eq!(drained(&program, &[]), (program.clone(), Finish::Halted));
}

#[test]
fn large_immediate_is_output_exactly() {
    assert_eq!(
        drained(&[104, 1125899906842624, 99], &[]),
        (vec![1125899906842624], Finish::Halted)
    );
}

#[test]
fn sixteen_digit_product() {
    let (out, finish) = drained(&[1102, 34915192, 34915192, 7, 4, 7, 99, 0], &[]);
    assert_eq!(finish, Finish::Halted);
    assert_eq!(out, vec![1219070632396864]);
    assert_eq!(out[0].to_string().len(), 16);
}

#[test]
fn comparisons_and_jumps() {
    let equal_8_position = [3, 9, 8, 9, 10, 9, 4, 9, 99, -1, 8];
    assert_eq!(drained(&equal_8_position, &[8]).0, vec![1]);
    assert_eq!(drained(&equal_8_position, &[7]).0, vec![0]);
    let less_8_immediate = [3, 3, 1107, -1, 8, 3, 4, 3, 99];
    assert_eq!(drained(&less_8_immediate, &[7]).0, vec![1]);
    assert_eq!(drained(&less_8_immediate, &[8]).0, vec![0]);
    let nonzero_position = [3, 12, 6, 12, 15, 1, 13, 14, 13, 4, 13, 99, -1, 0, 1, 9];
    assert_eq!(drained(&nonzero_position, &[0]).0, vec![0]);
    assert_eq!(drained(&nonzero_position, &[3]).0, vec![1]);
    let nonzero_immediate = [3, 3, 1105, -1, 9, 1101, 0, 0, 12, 4, 12, 99, 1];
    assert_eq!(drained(&nonzero_immediate, &[0]).0, vec![0]);
    assert_eq!(drained(&nonzero_immediate, &[-4]).0, vec![1]);
}

#[test]
fn compare_with_eight() {
    let program = [
        3, 21, 1008, 21, 8, 20, 1005, 20, 22, 107, 8, 21, 20, 1006, 20, 31, 1106, 0, 36, 98, 0,
        0, 1002, 21, 125, 20, 4, 20, 1105, 1, 46, 104, 999, 1105, 1, 46, 1101, 1000, 1, 20, 4,
        20, 1105, 1, 46, 98, 99,
    ];
    assert_eq!(drained(&program, &[7]), (vec![999], Finish::Halted));
    assert_eq!(drained(&program, &[8]), (vec![1000], Finish::Halted));
    assert_eq!(drained(&program, &[9]), (vec![1001], Finish::Halted));
}

#[test]
fn relative_mode_reads_and_writes() {
    assert_eq!(drained(&[109, 10, 204, -5, 99, 77], &[]).0, vec![77]);
    let mut c = Computer::new(&[109, 7, 21101, 2, 3, 0, 99, 0]);
    assert_eq!(c.run(1000), Ok(Event::Halted));
    assert_eq!(c.relative_base(), 7);
    assert_eq!(c.get_value(7), 5);
    let mut c = Computer::new(&[109, 5, 203, 0, 99, 0]);
    c.push_input(41);
    assert_eq!(c.run(1000), Ok(Event::Halted));
    assert_eq!(c.get_value(5), 41);
}

#[test]
fn memory_grows_on_demand() {
    assert_eq!(drained(&[4, 100, 99], &[]).0, vec![0]);
    assert_eq!(
        drained(&[1101, 2, 3, 1000000, 4, 1000000, 99], &[]),
        (vec![5], Finish::Halted)
    );
    let mut c = Computer::new(&[99]);
    c.set_value(1 << 40, 8);
    assert_eq!(c.get_value(1 << 40), 8);
    assert_eq!(c.get_value((1 << 40) + 1), 0);
}

#[test]
fn arithmetic_wraps() {
    let mut c = Computer::new(&[1, 5, 6, 0, 99, i64::MAX, 1]);
    assert_eq!(c.run(1000), Ok(Event::Halted));
    assert_eq!(c.get_value(0), i64::MIN);
    let mut c = Computer::new(&[1102, 4611686018427387904, 4, 0, 99]);
    assert_eq!(c.run(1000), Ok(Event::Halted));
    assert_eq!(c.get_value(0), 0);
    let mut c = Computer::new(&[109, -1, 109, i64::MIN, 99]);
    assert_eq!(c.run(1000), Ok(Event::Halted));
    assert_eq!(c.relative_base(), i64::MAX);
}

#[test]
fn rerun_gives_same_memory() {
    let program = [1, 9, 10, 3, 2, 3, 11, 0, 99, 30, 40, 50];
    let mut a = Computer::new(&program);
    let mut b = Computer::new(&program);
    assert_eq!(a.run(1000), Ok(Event::Halted));
    assert_eq!(b.run(5000), Ok(Event::Halted));
    for address in 0..20 {
        assert_eq!(a.get_value(address), b.get_value(address));
    }
    assert_eq!(a.ip(), b.ip());
}

#[test]
fn step_budget_runs_out() {
    let mut c = Computer::new(&[1105, 1, 0]);
    assert_eq!(c.run(10), Ok(Event::Continue));
    assert_eq!(drained(&[1105, 1, 0], &[]), (vec![], Finish::OutOfFuel));
    let mut c = Computer::new(&[1, 0, 0, 0, 99]);
    assert_eq!(c.run(0), Ok(Event::Continue));
    assert_eq!(c.ip(), 0);
}

#[test]
fn unknown_opcode_is_fatal() {
    let mut c = Computer::new(&[42]);
    assert_eq!(c.step(), Err(Fault::UnknownOpcode(42)));
    assert_eq!(drained(&[-1], &[]), (vec![], Finish::Faulted(Fault::UnknownOpcode(-1))));
    assert_eq!(
        drained(&[104, 3, 0], &[]),
        (vec![3], Finish::Faulted(Fault::UnknownOpcode(0)))
    );
}

#[test]
fn unknown_mode_is_fatal() {
    let mut c = Computer::new(&[301, 0, 0, 0, 99]);
    assert_eq!(c.step(), Err(Fault::UnknownMode(301)));
    assert_eq!(c.ip(), 0);
}

#[test]
fn negative_address_is_fatal() {
    let mut c = Computer::new(&[1, -1, 0, 0, 99]);
    assert_eq!(c.step(), Err(Fault::NegativeAddress));
    let mut c = Computer::new(&[109, -3, 204, 1, 99]);
    assert_eq!(c.run(100), Err(Fault::NegativeAddress));
    let mut c = Computer::new(&[1105, 1, -5]);
    assert_eq!(c.step(), Err(Fault::NegativeAddress));
}

#[test]
fn write_through_immediate_is_fatal() {
    let mut c = Computer::new(&[11101, 1, 1, 1, 99]);
    assert_eq!(c.step(), Err(Fault::ImmediateWrite));
    assert_eq!(c.get_value(1), 1);
    let mut c = Computer::new(&[103, 0, 99]);
    c.push_input(4);
    assert_eq!(c.step(), Err(Fault::ImmediateWrite));
}

#[test]
fn parameters_resolve_by_mode() {
    let mut c = Computer::new(&[109, 3, 21002, 2, 6, 0, 99]);
    assert_eq!(c.step(), Ok(Event::Continue));
    assert_eq!(c.get_opcode(), 21002);
    let p1 = c.get_parameter(1).unwrap();
    assert_eq!((p1.integer, p1.mode, p1.address, p1.value), (2, Mode::Position, 2, 21002));
    let p2 = c.get_parameter(2).unwrap();
    assert_eq!((p2.integer, p2.mode, p2.address, p2.value), (6, Mode::Immediate, 4, 6));
    let p3 = c.get_parameter(3).unwrap();
    assert_eq!((p3.integer, p3.mode, p3.address, p3.value), (0, Mode::Relative, 3, 2));
    assert_eq!(c.step(), Ok(Event::Continue));
    assert_eq!(c.get_value(3), 126012);
}

#[test]
fn opcode_and_mode_decoding() {
    assert_eq!(decode_opcode(1002), Ok(Opcode::Multiply));
    assert_eq!(decode_opcode(99), Ok(Opcode::Halt));
    assert_eq!(decode_opcode(21109), Ok(Opcode::AdjustRelativeBase));
    assert_eq!(decode_opcode(10), Err(Fault::UnknownOpcode(10)));
    assert_eq!(decode_opcode(-99), Err(Fault::UnknownOpcode(-99)));
    assert_eq!(decode_mode(21002, 1), Ok(Mode::Position));
    assert_eq!(decode_mode(21002, 2), Ok(Mode::Immediate));
    assert_eq!(decode_mode(21002, 3), Ok(Mode::Relative));
    assert_eq!(decode_mode(902, 1), Err(Fault::UnknownMode(902)));
}
