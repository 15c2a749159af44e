use intcode::arcade::{Game, Position};
use intcode::computer::Event;
use intcode::fuel::Calculator;
use intcode::gravity_assist::Program;
use intcode::image::Image;
use intcode::moons::{gcd, lcm, Axis, Space};
use intcode::network::Amplifier;
use intcode::password::{count_valid_passwords, part_2_validate};
use intcode::signal::fft;
use intcode::wires::{Horizontal, Segment, Vertical};

#[test]
fn fuel_for_modules() {
    assert_eq!(Calculator::calculate_fuel(12), 2);
    assert_eq!(Calculator::calculate_fuel(14), 2);
    assert_eq!(Calculator::calculate_fuel(1969), 654);
    assert_eq!(Calculator::calculate_fuel(100756), 33583);
    assert_eq!(Calculator::calculate_fuel(6), 0);
    assert_eq!(Calculator::calculate_fuel(0), 0);
}

#[test]
fn fuel_for_fuel() {
    let mut calculator = Calculator::new();
    assert_eq!(calculator.calculate_fuel_extended(14), 2);
    assert_eq!(calculator.calculate_fuel_extended(1969), 966);
    assert_eq!(calculator.calculate_fuel_extended(100756), 50346);
    assert_eq!(calculator.calculate_fuel_extended(1969), 966);
    assert_eq!(calculator.calculate_fuel_extended(0), 0);
}

#[test]
fn add_multiply_machine() {
    let mut program = Program::new(&[1, 9, 10, 3, 2, 3, 11, 0, 99, 30, 40, 50]);
    while program.operate() == Some(true) {}
    assert_eq!(program.memory[0], 3500);
    let mut program = Program::new(&[1, 1, 1, 4, 99, 5, 6, 0, 99]);
    while program.operate() == Some(true) {}
    assert_eq!(program.memory, vec![30, 1, 1, 4, 2, 5, 6, 0, 99]);
    let mut program = Program::new(&[2, 4, 4, 5, 99, 0]);
    assert_eq!(program.operate(), Some(true));
    assert_eq!(program.ip, 4);
    assert_eq!(program.operate(), Some(false));
    assert_eq!(program.memory[5], 9801);
}

#[test]
fn add_multiply_machine_refuses_bad_programs() {
    let mut program = Program::new(&[7, 0, 0, 0]);
    assert_eq!(program.operate(), None);
    let mut program = Program::new(&[1, 0, 0, 40]);
    assert_eq!(program.operate(), None);
    assert_eq!(program.memory, vec![1, 0, 0, 40]);
    let mut program = Program::new(&[2, 4, 4, 0, 4_000_000_000]);
    assert_eq!(program.operate(), None);
    let mut program = Program::new(&[]);
    assert_eq!(program.operate(), None);
}

#[test]
fn amplifier_reads_phase_then_signal() {
    let program = [3, 15, 3, 16, 1002, 16, 10, 16, 1, 16, 15, 15, 4, 15, 99, 0, 0];
    let mut amplifier = Amplifier::new(&program, 4);
    assert_eq!(amplifier.run(1000), Ok(Event::AwaitingInput));
    amplifier.push_input(0);
    assert_eq!(amplifier.run(1000), Ok(Event::Output(4)));
    assert_eq!(amplifier.step(), Ok(Event::Halted));
}

#[test]
fn segments_cross() {
    let h = Segment::Horizontal(Horizontal { y: 5, x0: 3, x1: 8, rightward: true, steps: 10 });
    let v = Segment::Vertical(Vertical { x: 6, y0: 3, y1: 7, upward: false, steps: 20 });
    assert_eq!(h.intersects(&v), Some((6, 5, 10 + 3 + 20 + 2)));
    assert_eq!(v.intersects(&h), Some((6, 5, 35)));
    assert_eq!(h.intersects(&h), None);
    let far = Segment::Vertical(Vertical { x: 9, y0: 3, y1: 7, upward: true, steps: 0 });
    assert_eq!(h.intersects(&far), None);
    let left = Segment::Horizontal(Horizontal { y: 3, x0: 3, x1: 8, rightward: false, steps: 1 });
    let up = Segment::Vertical(Vertical { x: 3, y0: 3, y1: 7, upward: true, steps: 4 });
    assert_eq!(left.intersects(&up), Some((3, 3, 1 + 5 + 4)));
}

#[test]
fn exact_pairs() {
    assert!(part_2_validate(&[1, 1, 2, 2, 3, 3]));
    assert!(!part_2_validate(&[1, 2, 3, 4, 4, 4]));
    assert!(part_2_validate(&[1, 1, 1, 1, 2, 2]));
    assert!(!part_2_validate(&[1, 2, 3, 4, 5, 6]));
    assert!(part_2_validate(&[1, 1, 2, 3, 4, 5]));
    assert!(!part_2_validate(&[]));
}

#[test]
fn password_counts() {
    assert_eq!(count_valid_passwords(111111, 111111, true), 1);
    assert_eq!(count_valid_passwords(111111, 111111, false), 0);
    assert_eq!(count_valid_passwords(111122, 111122, false), 1);
    assert_eq!(count_valid_passwords(123444, 123444, false), 0);
    assert_eq!(count_valid_passwords(123444, 123444, true), 1);
    assert_eq!(count_valid_passwords(223450, 223450, true), 0);
    assert_eq!(count_valid_passwords(123789, 123789, true), 0);
    assert_eq!(count_valid_passwords(273025, 767253, true), 910);
    assert_eq!(count_valid_passwords(273025, 767253, false), 598);
    assert_eq!(count_valid_passwords(5, 1, true), 0);
}

#[test]
fn image_layers() {
    let digits: Vec<u8> = (0..300).map(|i| (i % 3) as u8).collect();
    let image = Image::new(&digits);
    assert_eq!(image.calculate_distributions(), vec![(50, 50, 50), (50, 50, 50)]);
    let mut digits = vec![0u8; 150];
    digits.extend(vec![1u8, 2, 2, 7]);
    let image = Image::new(&digits);
    assert_eq!(image.calculate_distributions(), vec![(150, 0, 0), (0, 1, 2)]);
    let image = Image::new(&[]);
    assert_eq!(image.calculate_distributions(), vec![(0, 0, 0)]);
}

#[test]
fn greatest_and_least_common() {
    assert_eq!(gcd(12, 18), 6);
    assert_eq!(gcd(0, 7), 7);
    assert_eq!(gcd(7, 0), 7);
    assert_eq!(lcm(4, 6), 12);
    assert_eq!(lcm(18, 28), 252);
    assert_eq!(lcm(0, 5), 0);
}

fn example_space() -> Space {
    Space {
        x_axis: Axis::new(vec![-1, 2, 4, 3]),
        y_axis: Axis::new(vec![0, -10, -8, 5]),
        z_axis: Axis::new(vec![2, -7, 8, -1]),
    }
}

#[test]
fn moons_move() {
    let mut space = example_space();
    space.step();
    assert_eq!(space.x_axis.positions(), &vec![2, 3, 1, 2]);
    assert_eq!(space.x_axis.velocities(), &vec![3, 1, -3, -1]);
    assert_eq!(space.y_axis.positions(), &vec![-1, -7, -7, 2]);
    assert_eq!(space.z_axis.positions(), &vec![1, -4, 5, 0]);
    for _ in 1..10 {
        space.step();
    }
    assert_eq!(space.total_energy(), Some(179));
    assert_eq!(example_space().total_energy(), Some(0));
}

#[test]
fn energy_too_large() {
    let space = Space {
        x_axis: Axis::new(vec![i64::MIN]),
        y_axis: Axis::new(vec![0]),
        z_axis: Axis::new(vec![0]),
    };
    assert_eq!(space.total_energy(), Some(0));
    let mut space = space;
    space.x_axis = Axis::new(vec![i64::MAX, i64::MIN]);
    space.y_axis = Axis::new(vec![0, 0]);
    space.z_axis = Axis::new(vec![0, 0]);
    space.step();
    assert_eq!(space.total_energy(), None);
}

#[test]
fn axes_return_to_start() {
    let mut space = example_space();
    assert_eq!(space.x_axis.count_to_reset(10_000), Some(18));
    assert_eq!(space.y_axis.count_to_reset(10_000), Some(28));
    assert_eq!(space.z_axis.count_to_reset(10_000), Some(44));
    assert_eq!(lcm(18, lcm(28, 44)), 2772);
    let mut axis = Axis::new(vec![-1, 2, 4, 3]);
    assert_eq!(axis.count_to_reset(17), None);
}

#[test]
fn arcade_screen() {
    assert_eq!(Position::new(3, -4), Position { x: 3, y: -4 });
    let mut game = Game::new("104,1,104,2,104,3,99").unwrap();
    assert_eq!(game.screen_extents(), None);
    assert_eq!(game.block_count(), 0);
    game.insert_quarters();
    assert_eq!(game.program()[0], 2);
    assert!(game.draw(1, 2, 2));
    assert!(game.draw(5, -1, 2));
    assert!(game.draw(0, 7, 1));
    assert!(game.draw(5, -1, 4));
    assert!(!game.draw(9, 9, 7));
    assert!(game.draw(-1, 0, 12345));
    assert_eq!(game.score(), 12345);
    assert_eq!(game.block_count(), 1);
    assert_eq!(game.screen_extents(), Some((0, 5, -1, 7)));
    assert!(Game::new("1,x").is_err());
}

#[test]
fn signal_phases() {
    let mut digits = vec![1, 2, 3, 4, 5, 6, 7, 8];
    let expected = [
        vec![4, 8, 2, 2, 6, 1, 5, 8],
        vec![3, 4, 0, 4, 0, 4, 3, 8],
        vec![0, 3, 4, 1, 5, 5, 1, 8],
        vec![0, 1, 0, 2, 9, 4, 9, 8],
    ];
    for phase in expected.iter() {
        digits = fft(&digits);
        assert_eq!(&digits, phase);
    }
    assert_eq!(fft(&[]), Vec::<i32>::new());
}
