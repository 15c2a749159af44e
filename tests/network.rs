use intcode::instruction::Fault;
use intcode::network::{run_feedback_loop, run_pipeline, Network, NetworkError};

const CHAIN_A: [i64; 17] = [3, 15, 3, 16, 1002, 16, 10, 16, 1, 16, 15, 15, 4, 15, 99, 0, 0];

const RING_A: [i64; 29] = [
    3, 26, 1001, 26, -4, 26, 3, 27, 1002, 27, 2, 27, 1, 27, 26, 27, 4, 27, 1001, 28, -1, 28,
    1005, 28, 6, 99, 0, 0, 5,
];

fn permutations(items: &[i64]) -> Vec<Vec<i64>> {
    if items.len() <= 1 {
        return vec![items.to_vec()];
    }
    let mut all = Vec::new();
    for i in 0..items.len() {
        let mut rest = items.to_vec();
        let first = rest.remove(i);
        for mut tail in permutations(&rest) {
            tail.insert(0, first);
            all.push(tail);
        }
    }
    all
}

#[test]
fn chain_of_five_amplifiers() {
    assert_eq!(run_pipeline(&CHAIN_A, &[4, 3, 2, 1, 0], &[0], 100_000), Ok(vec![43210]));
    let b = [
        3, 23, 3, 24, 1002, 24, 10, 24, 1002, 23, -1, 23, 101, 5, 23, 23, 1, 24, 23, 23, 4, 23,
        99, 0, 0,
    ];
    assert_eq!(run_pipeline(&b, &[0, 1, 2, 3, 4], &[0], 100_000), Ok(vec![54321]));
    let c = [
        3, 31, 3, 32, 1002, 32, 10, 32, 1001, 31, -2, 31, 1007, 31, 0, 33, 1002, 33, 7, 33, 1,
        33, 31, 31, 1, 32, 31, 31, 4, 31, 99, 0, 0, 0,
    ];
    assert_eq!(run_pipeline(&c, &[1, 0, 4, 3, 2], &[0], 100_000), Ok(vec![65210]));
}

#[test]
fn chain_best_phase_order() {
    let best = permutations(&[0, 1, 2, 3, 4])
        .iter()
        .map(|p| run_pipeline(&CHAIN_A, p, &[0], 100_000).unwrap()[0])
        .max();
    assert_eq!(best, Some(43210));
}

#[test]
fn chain_passes_every_value_through() {
    let echo_twice = [3, 0, 4, 0, 3, 0, 4, 0, 99];
    assert_eq!(run_pipeline(&[99], &[1, 2], &[], 100), Ok(vec![]));
    let doubler = [3, 9, 102, 2, 9, 9, 4, 9, 99, 0];
    assert_eq!(run_pipeline(&doubler, &[], &[1], 100), Err(NetworkError::Empty));
    let out = run_pipeline(&echo_twice, &[7, 8, 9], &[10], 1000);
    assert_eq!(out, Ok(vec![9, 8]));
}

#[test]
fn feedback_ring_examples() {
    assert_eq!(run_feedback_loop(&RING_A, &[9, 8, 7, 6, 5], 0, 1_000_000), Ok(139629729));
    let b = [
        3, 52, 1001, 52, -5, 52, 3, 53, 1, 52, 56, 54, 1007, 54, 5, 55, 1005, 55, 26, 1001, 54,
        -5, 54, 1105, 1, 12, 1, 53, 54, 53, 1008, 54, 0, 55, 1001, 55, 1, 55, 2, 53, 55, 53, 4,
        53, 1001, 56, -1, 56, 1005, 56, 6, 99, 0, 0, 0, 0, 10,
    ];
    assert_eq!(run_feedback_loop(&b, &[9, 7, 8, 5, 6], 0, 1_000_000), Ok(18216));
}

#[test]
fn feedback_ring_best_phase_order_is_reproducible() {
    let best = |budget: u64| {
        permutations(&[5, 6, 7, 8, 9])
            .iter()
            .map(|p| run_feedback_loop(&RING_A, p, 0, budget).unwrap())
            .max()
    };
    let first = best(1_000_000);
    assert_eq!(first, Some(139629729));
    assert_eq!(best(2_000_000), first);
}

#[test]
fn network_runs_step_by_step() {
    let mut net = Network::new(&RING_A, &[9, 8, 7, 6, 5], &[0], true).unwrap();
    assert!(!net.all_halted());
    assert_eq!(net.run(1_000_000), Ok(()));
    assert!(net.all_halted());
    assert_eq!(net.emitted().last(), Some(&139629729));
    assert!(Network::new(&RING_A, &[], &[0], true).is_err());
}

#[test]
fn composition_errors() {
    let reads_two = [3, 0, 3, 0, 99];
    assert_eq!(run_pipeline(&reads_two, &[1], &[], 100), Err(NetworkError::InputClosed(0)));
    assert_eq!(
        run_pipeline(&reads_two, &[1, 2], &[5], 100),
        Err(NetworkError::InputClosed(1))
    );
    assert_eq!(run_feedback_loop(&[3, 0, 3, 0, 3, 0, 99], &[1], 0, 1000), Err(NetworkError::Stalled));
    assert_eq!(run_feedback_loop(&reads_two, &[1], 0, 1000), Err(NetworkError::NoOutput));
    assert_eq!(
        run_pipeline(&[42], &[0], &[], 100),
        Err(NetworkError::Machine(0, Fault::UnknownOpcode(42)))
    );
    assert_eq!(run_pipeline(&[1105, 1, 0], &[0], &[], 50), Err(NetworkError::OutOfFuel));
    assert_eq!(run_feedback_loop(&RING_A, &[], 0, 1000), Err(NetworkError::Empty));
}
