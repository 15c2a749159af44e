use vstd::prelude::*;

use crate::computer::{initial_state, run_spec, step_spec, Computer, Event, MachineState};
use crate::instruction::Fault;

verus! {

/// Why a composition of machines stopped without a result.
#[derive(Clone, Copy, Debug, PartialEq, Eq, Structural)]
pub enum NetworkError {
    /// The composition has no machine.
    Empty,
    /// The machine at this index faulted.
    Machine(usize, Fault),
    /// The machine at this index needs input, and the one that feeds it
    /// has halted (for the first machine of a chain: the caller gave all
    /// it had).
    InputClosed(usize),
    /// Every machine that has not halted waits for input that no running
    /// machine can send.
    Stalled,
    /// The step budget ran out before every machine halted.
    OutOfFuel,
    /// Every machine halted, but the last one emitted nothing.
    NoOutput,
}

/// The abstract state of a chain or ring of machines. Machine `i` feeds
/// machine `i + 1`; what the last machine emits is collected, and in a
/// ring also fed to the first.
pub struct NetState {
    pub machines: Seq<MachineState>,
    pub halted: Seq<bool>,
    pub emitted: Seq<i64>,
    pub feedback: bool,
    /// The machine that runs next.
    pub current: nat,
    /// How many machines in a row were visited without any progress.
    pub idle: nat,
}

pub open spec fn well_formed(n: NetState) -> bool {
    &&& n.machines.len() > 0
    &&& n.halted.len() == n.machines.len()
    &&& n.current < n.machines.len()
    &&& n.idle <= n.machines.len()
}

/// `s` with `v` queued as input.
pub open spec fn with_input(s: MachineState, v: i64) -> MachineState {
    MachineState { input: s.input.push(v), ..s }
}

/// The machine at `j`, freshly loaded, with its setting queued first and,
/// for the first machine, the caller's inputs after it.
pub open spec fn initial_machine(
    program: Seq<i64>,
    settings: Seq<i64>,
    inputs: Seq<i64>,
    j: int,
) -> MachineState {
    MachineState {
        input: if j == 0 {
            seq![settings[j]] + inputs
        } else {
            seq![settings[j]]
        },
        ..initial_state(program)
    }
}

/// One machine per setting, each loaded with `program`.
pub open spec fn initial_net(
    program: Seq<i64>,
    settings: Seq<i64>,
    inputs: Seq<i64>,
    feedback: bool,
) -> NetState {
    NetState {
        machines: Seq::new(
            settings.len(),
            |j: int| initial_machine(program, settings, inputs, j),
        ),
        halted: Seq::new(settings.len(), |j: int| false),
        emitted: Seq::empty(),
        feedback,
        current: 0,
        idle: 0,
    }
}

/// The index after `i`, wrapping to the first machine.
pub open spec fn next_index(n: NetState, i: int) -> nat {
    if i + 1 < n.machines.len() {
        (i + 1) as nat
    } else {
        0
    }
}

/// Whether nothing more can reach machine `i`'s input.
pub open spec fn upstream_closed(n: NetState, i: int) -> bool {
    if i == 0 {
        !n.feedback || n.halted[n.halted.len() - 1]
    } else {
        n.halted[i - 1]
    }
}

/// Delivers `v`, just emitted by machine `i`, downstream.
pub open spec fn route(n: NetState, i: int, v: i64) -> NetState {
    if i + 1 < n.machines.len() {
        NetState {
            machines: n.machines.update(i + 1, with_input(n.machines[i + 1], v)),
            ..n
        }
    } else if n.feedback {
        NetState {
            machines: n.machines.update(0, with_input(n.machines[0], v)),
            emitted: n.emitted.push(v),
            ..n
        }
    } else {
        NetState { emitted: n.emitted.push(v), ..n }
    }
}

/// One visit to the current machine: it runs one instruction (an output
/// goes downstream at once), or, when it waits for input or has halted,
/// the turn passes to the next machine.
pub open spec fn net_step(n: NetState) -> Result<NetState, NetworkError> {
    let i = n.current as int;
    let next = next_index(n, i);
    if n.halted[i] {
        Ok(NetState { current: next, idle: n.idle + 1, ..n })
    } else {
        let (s, r) = step_spec(n.machines[i]);
        let stepped = NetState { machines: n.machines.update(i, s), idle: 0, ..n };
        match r {
            Err(f) => Err(NetworkError::Machine(i as usize, f)),
            Ok(Event::Continue) => Ok(stepped),
            Ok(Event::Output(v)) => Ok(route(stepped, i, v)),
            Ok(Event::AwaitingInput) => if upstream_closed(n, i) {
                Err(NetworkError::InputClosed(i as usize))
            } else {
                Ok(NetState { current: next, idle: n.idle + 1, ..n })
            },
            Ok(Event::Halted) => Ok(
                NetState { halted: n.halted.update(i, true), current: next, idle: 0, ..n },
            ),
        }
    }
}

pub open spec fn all_halted(n: NetState) -> bool {
    forall|j: int| 0 <= j < n.halted.len() ==> n.halted[j]
}

/// Visits machines until all have halted, an error stops the
/// composition, or `fuel` visits have been made.
pub open spec fn net_run(n: NetState, fuel: nat) -> Result<NetState, NetworkError>
    decreases fuel,
{
    if all_halted(n) {
        Ok(n)
    } else if n.idle >= n.machines.len() {
        Err(NetworkError::Stalled)
    } else if fuel == 0 {
        Err(NetworkError::OutOfFuel)
    } else {
        match net_step(n) {
            Err(e) => Err(e),
            Ok(m) => net_run(m, (fuel - 1) as nat),
        }
    }
}

/// A chain or ring of machines, run one at a time in turn. Each machine
/// reads only its own ordered input, so the values that flow between the
/// machines are those of a run with one thread per machine.
pub struct Network {
    machines: Vec<Computer>,
    halted: Vec<bool>,
    emitted: Vec<i64>,
    feedback: bool,
    current: usize,
    idle: usize,
}

pub open spec fn views(v: Seq<Computer>) -> Seq<MachineState> {
    v.map_values(|c: Computer| c@)
}

impl View for Network {
    type V = NetState;

    closed spec fn view(&self) -> NetState {
        NetState {
            machines: views(self.machines@),
            halted: self.halted@,
            emitted: self.emitted@,
            feedback: self.feedback,
            current: self.current as nat,
            idle: self.idle as nat,
        }
    }
}

impl Network {
    /// One machine per entry of `settings`, each loaded with `program` and
    /// given its setting as first input; the first machine then gets
    /// `inputs`. With `feedback`, the last machine feeds the first.
    pub fn new(program: &[i64], settings: &[i64], inputs: &[i64], feedback: bool) -> (r: Result<
        Network,
        NetworkError,
    >)
        ensures
            settings@.len() == 0 ==> r == Err::<Network, NetworkError>(NetworkError::Empty),
            settings@.len() > 0 ==> r is Ok && r->Ok_0@ == initial_net(
                program@,
                settings@,
                inputs@,
                feedback,
            ),
            r is Ok ==> well_formed(r->Ok_0@),
    {
        if settings.len() == 0 {
            return Err(NetworkError::Empty);
        }
        let ghost goal = initial_net(program@, settings@, inputs@, feedback);
        let mut machines: Vec<Computer> = Vec::new();
        let mut halted: Vec<bool> = Vec::new();
        let mut j: usize = 0;
        while j < settings.len()
            invariant
                j <= settings@.len(),
                goal == initial_net(program@, settings@, inputs@, feedback),
                views(machines@) =~= goal.machines.subrange(0, j as int),
                halted@ =~= goal.halted.subrange(0, j as int),
            decreases settings@.len() - j,
        {
            let mut c = Computer::new(program);
            c.push_input(settings[j]);
            if j == 0 {
                let mut k: usize = 0;
                while k < inputs.len()
                    invariant
                        k <= inputs@.len(),
                        j == 0,
                        settings@.len() > 0,
                        c@ == (MachineState {
                            input: seq![settings@[0]] + inputs@.subrange(0, k as int),
                            ..initial_state(program@)
                        }),
                    decreases inputs@.len() - k,
                {
                    c.push_input(inputs[k]);
                    k = k + 1;
                    assert(seq![settings@[0]] + inputs@.subrange(0, k as int) =~= (seq![
                        settings@[0],
                    ] + inputs@.subrange(0, k - 1)).push(inputs@[k - 1]));
                }
                assert(inputs@.subrange(0, k as int) =~= inputs@);
            }
            assert(c@ == initial_machine(program@, settings@, inputs@, j as int));
            let ghost before = machines@;
            let ghost view_c = c@;
            machines.push(c);
            halted.push(false);
            j = j + 1;
            assert(views(machines@) =~= views(before).push(view_c));
        }
        assert(goal.machines.subrange(0, j as int) =~= goal.machines);
        assert(goal.halted.subrange(0, j as int) =~= goal.halted);
        let net = Network {
            machines,
            halted,
            emitted: Vec::new(),
            feedback,
            current: 0,
            idle: 0,
        };
        assert(net@ == goal);
        Ok(net)
    }

    /// Whether nothing more can reach machine `i`'s input.
    fn upstream_closed(&self, i: usize) -> (r: bool)
        requires
            well_formed(self@),
            i < self@.machines.len(),
        ensures
            r == upstream_closed(self@, i as int),
    {
        if i == 0 {
            !self.feedback || self.halted[self.halted.len() - 1]
        } else {
            self.halted[i - 1]
        }
    }

    /// Delivers `v`, just emitted by machine `i`, downstream.
    fn route(&mut self, i: usize, v: i64)
        requires
            well_formed(old(self)@),
            i < old(self)@.machines.len(),
        ensures
            final(self)@ == route(old(self)@, i as int, v),
    {
        let ghost before = self.machines@;
        assert(self.machines@.len() == self@.machines.len());
        assert(i < self.machines@.len());
        let k = self.machines.len();
        if i + 1 < k {
            self.machines[i + 1].push_input(v);
            assert(views(self.machines@) =~= views(before).update(
                i + 1,
                with_input(views(before)[i + 1], v),
            ));
        } else if self.feedback {
            self.machines[0].push_input(v);
            self.emitted.push(v);
            assert(views(self.machines@) =~= views(before).update(
                0,
                with_input(views(before)[0], v),
            ));
        } else {
            self.emitted.push(v);
        }
    }

    /// One visit to the current machine.
    fn visit(&mut self) -> (r: Result<(), NetworkError>)
        requires
            well_formed(old(self)@),
            old(self)@.idle < old(self)@.machines.len(),
        ensures
            match net_step(old(self)@) {
                Ok(m) => r is Ok && final(self)@ == m,
                Err(e) => r == Err::<(), NetworkError>(e),
            },
            r is Ok ==> well_formed(final(self)@),
    {
        let i = self.current;
        let k = self.machines.len();
        let next: usize = if i + 1 < k {
            i + 1
        } else {
            0
        };
        if self.halted[i] {
            self.current = next;
            self.idle = self.idle + 1;
            return Ok(());
        }
        let ghost before = self.machines@;
        let r = self.machines[i].step();
        let ghost stepped = self.machines@[i as int]@;
        assert(views(self.machines@) =~= views(before).update(i as int, stepped));
        match r {
            Err(f) => Err(NetworkError::Machine(i, f)),
            Ok(Event::Continue) => {
                self.idle = 0;
                Ok(())
            },
            Ok(Event::Output(v)) => {
                self.idle = 0;
                self.route(i, v);
                Ok(())
            },
            Ok(Event::AwaitingInput) => {
                assert(views(self.machines@) =~= views(before));
                if self.upstream_closed(i) {
                    Err(NetworkError::InputClosed(i))
                } else {
                    self.current = next;
                    self.idle = self.idle + 1;
                    Ok(())
                }
            },
            Ok(Event::Halted) => {
                assert(views(self.machines@) =~= views(before));
                self.halted.set(i, true);
                self.current = next;
                self.idle = 0;
                Ok(())
            },
        }
    }

    /// Visits machines until every one has halted, an error stops the
    /// composition, or `max_steps` visits have been made.
    pub fn run(&mut self, max_steps: u64) -> (r: Result<(), NetworkError>)
        requires
            well_formed(old(self)@),
        ensures
            match net_run(old(self)@, max_steps as nat) {
                Ok(m) => r is Ok && final(self)@ == m,
                Err(e) => r == Err::<(), NetworkError>(e),
            },
    {
        let mut fuel: u64 = max_steps;
        loop
            invariant
                well_formed(self@),
                net_run(self@, fuel as nat) == net_run(old(self)@, max_steps as nat),
            decreases fuel,
        {
            if self.all_halted() {
                return Ok(());
            }
            if self.idle >= self.machines.len() {
                return Err(NetworkError::Stalled);
            }
            if fuel == 0 {
                return Err(NetworkError::OutOfFuel);
            }
            match self.visit() {
                Err(e) => return Err(e),
                Ok(()) => {},
            }
            fuel = fuel - 1;
        }
    }

    /// Whether every machine has halted.
    pub fn all_halted(&self) -> (r: bool)
        ensures
            r == all_halted(self@),
    {
        let mut j: usize = 0;
        while j < self.halted.len()
            invariant
                j <= self.halted@.len(),
                forall|x: int| 0 <= x < j ==> self.halted@[x],
            decreases self.halted@.len() - j,
        {
            if !self.halted[j] {
                assert(!self@.halted[j as int]);
                return false;
            }
            j = j + 1;
        }
        true
    }

    /// Everything the last machine has emitted so far.
    pub fn emitted(&self) -> (r: &Vec<i64>)
        ensures
            r@ == self@.emitted,
    {
        &self.emitted
    }
}

/// What a chain run hands back: everything the last machine emitted.
pub open spec fn pipeline_spec(
    program: Seq<i64>,
    settings: Seq<i64>,
    inputs: Seq<i64>,
    fuel: nat,
) -> Result<Seq<i64>, NetworkError> {
    if settings.len() == 0 {
        Err(NetworkError::Empty)
    } else {
        match net_run(initial_net(program, settings, inputs, false), fuel) {
            Ok(n) => Ok(n.emitted),
            Err(e) => Err(e),
        }
    }
}

/// What a ring run hands back: the last value the last machine emitted.
pub open spec fn feedback_spec(
    program: Seq<i64>,
    settings: Seq<i64>,
    seed: i64,
    fuel: nat,
) -> Result<i64, NetworkError> {
    if settings.len() == 0 {
        Err(NetworkError::Empty)
    } else {
        match net_run(initial_net(program, settings, seq![seed], true), fuel) {
            Ok(n) => if n.emitted.len() > 0 {
                Ok(n.emitted.last())
            } else {
                Err(NetworkError::NoOutput)
            },
            Err(e) => Err(e),
        }
    }
}

/// Runs a chain of machines, one per setting, each loaded with `program`
/// and given its setting first; the first machine then reads `inputs`,
/// and each machine's output feeds the next. Once all have halted, returns
/// what the last one emitted.
pub fn run_pipeline(program: &[i64], settings: &[i64], inputs: &[i64], max_steps: u64) -> (r:
    Result<Vec<i64>, NetworkError>)
    ensures
        match pipeline_spec(program@, settings@, inputs@, max_steps as nat) {
            Ok(out) => r is Ok && r->Ok_0@ == out,
            Err(e) => r == Err::<Vec<i64>, NetworkError>(e),
        },
{
    let mut net = match Network::new(program, settings, inputs, false) {
        Ok(n) => n,
        Err(e) => return Err(e),
    };
    match net.run(max_steps) {
        Ok(()) => Ok(net.emitted.clone()),
        Err(e) => Err(e),
    }
}

/// Runs a ring of machines, one per setting, each loaded with `program`
/// and given its setting first; the first machine then reads `seed`, each
/// machine's output feeds the next, and the last one's feeds the first.
/// Once all have halted, returns the last value the last machine emitted.
pub fn run_feedback_loop(program: &[i64], settings: &[i64], seed: i64, max_steps: u64) -> (r:
    Result<i64, NetworkError>)
    ensures
        r == feedback_spec(program@, settings@, seed, max_steps as nat),
{
    let seeds: Vec<i64> = vec![seed];
    assert(seeds@ =~= seq![seed]);
    let mut net = match Network::new(program, settings, seeds.as_slice(), true) {
        Ok(n) => n,
        Err(e) => return Err(e),
    };
    match net.run(max_steps) {
        Ok(()) => {
            let n = net.emitted.len();
            if n > 0 {
                Ok(net.emitted[n - 1])
            } else {
                Err(NetworkError::NoOutput)
            }
        },
        Err(e) => Err(e),
    }
}

/// However much fuel each of two runs of the same composition is given,
/// if both finish, every machine has halted, each ends in the same state,
/// and the same values come out.
pub proof fn lemma_net_run_reproducible(n: NetState, f1: nat, f2: nat)
    requires
        net_run(n, f1) is Ok,
        net_run(n, f2) is Ok,
    ensures
        net_run(n, f1) == net_run(n, f2),
        all_halted(net_run(n, f1)->Ok_0),
    decreases f1,
{
    if !all_halted(n) && n.idle < n.machines.len() {
        if let Ok(m) = net_step(n) {
            lemma_net_run_reproducible(m, (f1 - 1) as nat, (f2 - 1) as nat);
        }
    }
}

/// A feedback ring that yields a value has run until every machine halted,
/// and yields the same value however large the step budget of the run.
pub proof fn lemma_feedback_reproducible(
    program: Seq<i64>,
    settings: Seq<i64>,
    seed: i64,
    f1: nat,
    f2: nat,
)
    requires
        feedback_spec(program, settings, seed, f1) is Ok,
        feedback_spec(program, settings, seed, f2) is Ok,
    ensures
        feedback_spec(program, settings, seed, f1) == feedback_spec(program, settings, seed, f2),
        all_halted(net_run(initial_net(program, settings, seq![seed], true), f1)->Ok_0),
{
    lemma_net_run_reproducible(initial_net(program, settings, seq![seed], true), f1, f2);
}

/// One amplifier of a chain or ring: a machine loaded with the shared
/// program and given its phase setting as first input.
pub struct Amplifier {
    computer: Computer,
}

impl View for Amplifier {
    type V = MachineState;

    closed spec fn view(&self) -> MachineState {
        self.computer@
    }
}

impl Amplifier {
    pub fn new(program: &[i64], phase: i64) -> (a: Amplifier)
        ensures
            a@ == with_input(initial_state(program@), phase),
    {
        let mut computer = Computer::new(program);
        computer.push_input(phase);
        Amplifier { computer }
    }

    /// Queues an input signal.
    pub fn push_input(&mut self, value: i64)
        ensures
            final(self)@ == with_input(old(self)@, value),
    {
        self.computer.push_input(value);
    }

    /// Runs instructions until the amplifier outputs, waits, halts or
    /// faults, or `max_steps` have run.
    pub fn run(&mut self, max_steps: u64) -> (r: Result<Event, Fault>)
        ensures
            (final(self)@, r) == run_spec(old(self)@, max_steps as nat),
    {
        self.computer.run(max_steps)
    }

    /// Runs one instruction.
    pub fn step(&mut self) -> (r: Result<Event, Fault>)
        ensures
            (final(self)@, r) == step_spec(old(self)@),
    {
        self.computer.step()
    }
}

} // verus!
