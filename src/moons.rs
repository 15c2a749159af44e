use vstd::prelude::*;

verus! {

/// Euclid's greatest common divisor.
pub open spec fn gcd_spec(a: u64, b: u64) -> u64
    decreases a,
{
    if a == 0 {
        b
    } else {
        gcd_spec(b % a, a)
    }
}

proof fn lemma_gcd_positive(a: u64, b: u64)
    requires
        a > 0 || b > 0,
    ensures
        gcd_spec(a, b) > 0,
    decreases a,
{
    if a > 0 {
        lemma_gcd_positive(b % a, a);
    }
}

pub fn gcd(a: u64, b: u64) -> (r: u64)
    ensures
        r == gcd_spec(a, b),
{
    let ghost goal = gcd_spec(a, b);
    let mut a = a;
    let mut b = b;
    while a > 0
        invariant
            gcd_spec(a, b) == goal,
        decreases a,
    {
        let temp = a;
        a = b % a;
        b = temp;
    }
    b
}

/// The least common multiple, `a * b / gcd(a, b)`; the product must fit.
pub fn lcm(a: u64, b: u64) -> (r: u64)
    requires
        a > 0 || b > 0,
        a * b <= u64::MAX,
    ensures
        r == (a * b) / (gcd_spec(a, b) as int),
{
    proof {
        lemma_gcd_positive(a, b);
    }
    a * b / gcd(a, b)
}

/// The abstract state of one axis: each moon's position and velocity.
pub struct AxisState {
    pub positions: Seq<i64>,
    pub velocities: Seq<i64>,
}

/// The pull on a moon at `p`: towards each moon at `q`, one unit.
pub open spec fn sign(p: i64, q: i64) -> int {
    if p < q {
        1
    } else if p == q {
        0
    } else {
        -1
    }
}

/// The pull on moon `i` from the first `n` moons.
pub open spec fn pull(ps: Seq<i64>, i: int, n: int) -> int
    decreases n,
{
    if n <= 0 {
        0
    } else {
        pull(ps, i, n - 1) + sign(ps[i], ps[n - 1])
    }
}

/// Gravity changes each velocity by the pull of all moons; velocities wrap
/// around on overflow.
pub open spec fn gravity_spec(a: AxisState) -> AxisState {
    AxisState {
        velocities: Seq::new(
            a.velocities.len(),
            |i: int| a.velocities[i].wrapping_add(pull(a.positions, i, a.positions.len() as int) as i64),
        ),
        ..a
    }
}

/// Each position moves by its velocity, wrapping around on overflow.
pub open spec fn velocity_spec(a: AxisState) -> AxisState {
    AxisState {
        positions: Seq::new(
            a.positions.len(),
            |i: int| a.positions[i].wrapping_add(a.velocities[i]),
        ),
        ..a
    }
}

/// The axis after `k` time steps.
pub open spec fn after(a: AxisState, k: nat) -> AxisState
    decreases k,
{
    if k == 0 {
        a
    } else {
        velocity_spec(gravity_spec(after(a, (k - 1) as nat)))
    }
}

pub open spec fn axis_ok(a: AxisState) -> bool {
    &&& a.positions.len() == a.velocities.len()
    &&& a.positions.len() < i64::MAX
}

proof fn lemma_pull_bounded(ps: Seq<i64>, i: int, n: int)
    requires
        0 <= n,
    ensures
        -n <= pull(ps, i, n) <= n,
    decreases n,
{
    if n > 0 {
        lemma_pull_bounded(ps, i, n - 1);
    }
}

/// The moons' positions and velocities along one axis.
pub struct Axis {
    positions: Vec<i64>,
    velocities: Vec<i64>,
}

impl View for Axis {
    type V = AxisState;

    closed spec fn view(&self) -> AxisState {
        AxisState { positions: self.positions@, velocities: self.velocities@ }
    }
}

impl Axis {
    /// Moons at `positions`, all at rest.
    pub fn new(positions: Vec<i64>) -> (a: Axis)
        requires
            positions@.len() < i64::MAX,
        ensures
            a@.positions == positions@,
            a@.velocities == Seq::new(positions@.len(), |i: int| 0i64),
            axis_ok(a@),
    {
        let mut velocities: Vec<i64> = Vec::new();
        let mut i: usize = 0;
        while i < positions.len()
            invariant
                i <= positions@.len(),
                velocities@ =~= Seq::new(i as nat, |x: int| 0i64),
            decreases positions@.len() - i,
        {
            velocities.push(0);
            i = i + 1;
        }
        Axis { positions, velocities }
    }

    /// The moons' positions.
    pub fn positions(&self) -> (r: &Vec<i64>)
        ensures
            r@ == self@.positions,
    {
        &self.positions
    }

    /// The moons' velocities.
    pub fn velocities(&self) -> (r: &Vec<i64>)
        ensures
            r@ == self@.velocities,
    {
        &self.velocities
    }

    pub fn apply_gravity(&mut self)
        requires
            axis_ok(old(self)@),
        ensures
            final(self)@ == gravity_spec(old(self)@),
    {
        let n = self.positions.len();
        let ghost old_v = self.velocities@;
        let mut i: usize = 0;
        while i < n
            invariant
                n == self.positions@.len(),
                axis_ok(self@),
                self.positions@ == old(self)@.positions,
                old_v == old(self)@.velocities,
                self.velocities@.len() == n,
                i <= n,
                forall|x: int|
                    0 <= x < i ==> self.velocities@[x] == old_v[x].wrapping_add(
                        pull(self.positions@, x, n as int) as i64,
                    ),
                forall|x: int| i <= x < n ==> self.velocities@[x] == old_v[x],
            decreases n - i,
        {
            let mut p: i64 = 0;
            let mut j: usize = 0;
            while j < n
                invariant
                    n == self.positions@.len(),
                    n < i64::MAX,
                    i < n,
                    j <= n,
                    p == pull(self.positions@, i as int, j as int),
                decreases n - j,
            {
                proof {
                    lemma_pull_bounded(self.positions@, i as int, j as int);
                }
                let a = self.positions[i];
                let b = self.positions[j];
                if a < b {
                    p = p + 1;
                } else if a > b {
                    p = p - 1;
                }
                j = j + 1;
            }
            let v = self.velocities[i].wrapping_add(p);
            self.velocities.set(i, v);
            i = i + 1;
        }
        assert(self.velocities@ =~= gravity_spec(old(self)@).velocities);
    }

    pub fn apply_velocity(&mut self)
        requires
            axis_ok(old(self)@),
        ensures
            final(self)@ == velocity_spec(old(self)@),
    {
        let n = self.positions.len();
        let mut i: usize = 0;
        while i < n
            invariant
                n == self.positions@.len(),
                self.velocities@ == old(self)@.velocities,
                old(self)@.positions.len() == n,
                old(self)@.velocities.len() == n,
                i <= n,
                forall|x: int|
                    0 <= x < i ==> self.positions@[x] == old(self)@.positions[x].wrapping_add(
                        self.velocities@[x],
                    ),
                forall|x: int| i <= x < n ==> self.positions@[x] == old(self)@.positions[x],
            decreases n - i,
        {
            let p = self.positions[i].wrapping_add(self.velocities[i]);
            self.positions.set(i, p);
            i = i + 1;
        }
        assert(self.positions@ =~= velocity_spec(old(self)@).positions);
    }

    /// Whether two axes hold the same positions and velocities.
    fn same_as(&self, other: &Axis) -> (r: bool)
        ensures
            r == (self@ == other@),
    {
        if self.positions.len() != other.positions.len() || self.velocities.len()
            != other.velocities.len() {
            return false;
        }
        let mut i: usize = 0;
        while i < self.positions.len()
            invariant
                i <= self.positions@.len(),
                self.positions@.len() == other.positions@.len(),
                forall|x: int| 0 <= x < i ==> self.positions@[x] == other.positions@[x],
            decreases self.positions@.len() - i,
        {
            if self.positions[i] != other.positions[i] {
                return false;
            }
            i = i + 1;
        }
        let mut k: usize = 0;
        while k < self.velocities.len()
            invariant
                k <= self.velocities@.len(),
                self.velocities@.len() == other.velocities@.len(),
                forall|x: int| 0 <= x < k ==> self.velocities@[x] == other.velocities@[x],
            decreases self.velocities@.len() - k,
        {
            if self.velocities[k] != other.velocities[k] {
                return false;
            }
            k = k + 1;
        }
        assert(self.positions@ =~= other.positions@);
        assert(self.velocities@ =~= other.velocities@);
        true
    }

    /// The number of time steps after which the axis first returns to its
    /// present state, if that happens within `max_steps` steps.
    pub fn count_to_reset(&mut self, max_steps: u64) -> (r: Option<u64>)
        requires
            axis_ok(old(self)@),
        ensures
            match r {
                Some(k) => {
                    &&& 1 <= k <= max_steps
                    &&& after(old(self)@, k as nat) == old(self)@
                    &&& forall|j: nat| 1 <= j < k ==> after(old(self)@, j) != old(self)@
                },
                None => forall|j: nat| 1 <= j <= max_steps ==> after(old(self)@, j) != old(self)@,
            },
    {
        let baseline = Axis { positions: self.positions.clone(), velocities: self.velocities.clone() };
        let mut count: u64 = 0;
        while count < max_steps
            invariant
                baseline@ == old(self)@,
                axis_ok(self@),
                count <= max_steps,
                self@ == after(old(self)@, count as nat),
                forall|j: nat| 1 <= j <= count ==> after(old(self)@, j) != old(self)@,
            decreases max_steps - count,
        {
            self.apply_gravity();
            self.apply_velocity();
            count = count + 1;
            if self.same_as(&baseline) {
                return Some(count);
            }
        }
        None
    }
}

pub open spec fn abs_spec(v: i64) -> int {
    if v < 0 {
        -(v as int)
    } else {
        v as int
    }
}

/// The energy of moon `i`: the sum of its absolute coordinates times the
/// sum of its absolute velocities.
pub open spec fn moon_energy(x: AxisState, y: AxisState, z: AxisState, i: int) -> int {
    (abs_spec(x.positions[i]) + abs_spec(y.positions[i]) + abs_spec(z.positions[i])) * (
    abs_spec(x.velocities[i]) + abs_spec(y.velocities[i]) + abs_spec(z.velocities[i]))
}

/// The energy of the first `n` moons.
pub open spec fn energy(x: AxisState, y: AxisState, z: AxisState, n: int) -> int
    decreases n,
{
    if n <= 0 {
        0
    } else {
        energy(x, y, z, n - 1) + moon_energy(x, y, z, n - 1)
    }
}

proof fn lemma_energy_grows(x: AxisState, y: AxisState, z: AxisState, m: int, n: int)
    requires
        0 <= m <= n,
    ensures
        energy(x, y, z, m) <= energy(x, y, z, n),
    decreases n,
{
    if m < n {
        lemma_energy_grows(x, y, z, m, n - 1);
        assert(moon_energy(x, y, z, n - 1) >= 0) by (nonlinear_arith)
            requires
                moon_energy(x, y, z, n - 1) == (abs_spec(x.positions[n - 1]) + abs_spec(
                    y.positions[n - 1],
                ) + abs_spec(z.positions[n - 1])) * (abs_spec(x.velocities[n - 1]) + abs_spec(
                    y.velocities[n - 1],
                ) + abs_spec(z.velocities[n - 1])),
                abs_spec(x.positions[n - 1]) >= 0,
                abs_spec(y.positions[n - 1]) >= 0,
                abs_spec(z.positions[n - 1]) >= 0,
                abs_spec(x.velocities[n - 1]) >= 0,
                abs_spec(y.velocities[n - 1]) >= 0,
                abs_spec(z.velocities[n - 1]) >= 0,
        ;
    }
}

fn abs_wide(v: i64) -> (r: u128)
    ensures
        r == abs_spec(v),
{
    if v < 0 {
        (-(v as i128)) as u128
    } else {
        v as u128
    }
}

/// The moons, one axis at a time.
pub struct Space {
    pub x_axis: Axis,
    pub y_axis: Axis,
    pub z_axis: Axis,
}

impl Space {
    /// One time step: gravity, then velocity, on every axis.
    pub fn step(&mut self)
        requires
            axis_ok(old(self).x_axis@),
            axis_ok(old(self).y_axis@),
            axis_ok(old(self).z_axis@),
        ensures
            final(self).x_axis@ == after(old(self).x_axis@, 1),
            final(self).y_axis@ == after(old(self).y_axis@, 1),
            final(self).z_axis@ == after(old(self).z_axis@, 1),
    {
        self.x_axis.apply_gravity();
        self.x_axis.apply_velocity();
        self.y_axis.apply_gravity();
        self.y_axis.apply_velocity();
        self.z_axis.apply_gravity();
        self.z_axis.apply_velocity();
        assert(after(old(self).x_axis@, 0) == old(self).x_axis@);
        assert(after(old(self).y_axis@, 0) == old(self).y_axis@);
        assert(after(old(self).z_axis@, 0) == old(self).z_axis@);
    }

    /// The total energy of all moons, if it fits in an `i64`.
    pub fn total_energy(&self) -> (r: Option<i64>)
        requires
            axis_ok(self.x_axis@),
            axis_ok(self.y_axis@),
            axis_ok(self.z_axis@),
            self.y_axis@.positions.len() == self.x_axis@.positions.len(),
            self.z_axis@.positions.len() == self.x_axis@.positions.len(),
        ensures
            ({
                let e = energy(
                    self.x_axis@,
                    self.y_axis@,
                    self.z_axis@,
                    self.x_axis@.positions.len() as int,
                );
                if e <= i64::MAX {
                    r == Some(e as i64)
                } else {
                    r is None
                }
            }),
    {
        let ghost (x, y, z) = (self.x_axis@, self.y_axis@, self.z_axis@);
        let ghost n = x.positions.len() as int;
        let xp = self.x_axis.positions();
        let yp = self.y_axis.positions();
        let zp = self.z_axis.positions();
        let xv = self.x_axis.velocities();
        let yv = self.y_axis.velocities();
        let zv = self.z_axis.velocities();
        let limit: u128 = 0x7fff_ffff_ffff_ffff;
        let mut sum: u128 = 0;
        let mut i: usize = 0;
        while i < xp.len()
            invariant
                x == self.x_axis@,
                y == self.y_axis@,
                z == self.z_axis@,
                n == x.positions.len(),
                xp@ == x.positions,
                yp@ == y.positions,
                zp@ == z.positions,
                xv@ == x.velocities,
                yv@ == y.velocities,
                zv@ == z.velocities,
                axis_ok(x),
                axis_ok(y),
                axis_ok(z),
                y.positions.len() == n,
                z.positions.len() == n,
                i <= n,
                sum == energy(x, y, z, i as int),
                sum <= limit,
                limit == i64::MAX,
            decreases n - i,
        {
            let pot = abs_wide(xp[i]) + abs_wide(yp[i]) + abs_wide(zp[i]);
            let kin = abs_wide(xv[i]) + abs_wide(yv[i]) + abs_wide(zv[i]);
            let term: u128 = if pot == 0 || kin == 0 {
                assert(pot * kin == 0) by (nonlinear_arith)
                    requires
                        pot == 0 || kin == 0,
                ;
                0
            } else if pot > limit || kin > limit {
                assert(pot * kin > limit) by (nonlinear_arith)
                    requires
                        pot >= 1,
                        kin >= 1,
                        pot > limit || kin > limit,
                ;
                proof {
                    lemma_energy_grows(x, y, z, i + 1, n);
                }
                return None;
            } else {
                assert(pot * kin <= limit * limit) by (nonlinear_arith)
                    requires
                        pot <= limit,
                        kin <= limit,
                ;
                pot * kin
            };
            sum = sum + term;
            i = i + 1;
            if sum > limit {
                proof {
                    lemma_energy_grows(x, y, z, i as int, n);
                }
                return None;
            }
        }
        Some(sum as i64)
    }
}

} // verus!
