use std::collections::HashMap;
use vstd::prelude::*;

verus! {

broadcast use vstd::std_specs::hash::group_hash_axioms;

/// The fuel a module of `mass` needs on its own: a third of the mass,
/// rounded down, less two, and never below zero.
pub open spec fn fuel_spec(mass: u32) -> u32 {
    if mass <= 6 {
        0
    } else {
        (mass / 3 - 2) as u32
    }
}

/// The fuel for `mass`, plus the fuel for that fuel, and so on until the
/// need is zero.
pub open spec fn fuel_total(mass: u32) -> nat
    decreases mass,
{
    if mass <= 6 {
        0
    } else {
        fuel_spec(mass) as nat + fuel_total(fuel_spec(mass))
    }
}

/// The total fuel never exceeds the mass it lifts.
pub proof fn lemma_fuel_total_bounded(mass: u32)
    ensures
        fuel_total(mass) <= mass,
    decreases mass,
{
    if mass > 6 {
        lemma_fuel_total_bounded(fuel_spec(mass));
    }
}

/// Fuel requirements, with the extended requirement of each mass
/// remembered once computed.
pub struct Calculator {
    fuel_reqs: HashMap<u32, u32>,
}

impl Calculator {
    /// Every remembered requirement is the extended requirement of its mass.
    pub closed spec fn well_formed(&self) -> bool {
        forall|m: u32| #[trigger]
            self.fuel_reqs@.contains_key(m) ==> self.fuel_reqs@[m] as nat == fuel_total(m)
    }

    pub fn calculate_fuel(mass: u32) -> (r: u32)
        ensures
            r == fuel_spec(mass),
    {
        if mass <= 6 {
            return 0;
        }
        mass / 3 - 2
    }

    pub fn new() -> (c: Calculator)
        ensures
            c.well_formed(),
    {
        let mut fuel_reqs: HashMap<u32, u32> = HashMap::new();
        fuel_reqs.insert(0, 0);
        Calculator { fuel_reqs }
    }

    /// The fuel for `mass` including the fuel for the fuel.
    pub fn calculate_fuel_extended(&mut self, mass: u32) -> (r: u32)
        requires
            old(self).well_formed(),
        ensures
            r as nat == fuel_total(mass),
            final(self).well_formed(),
        decreases mass,
    {
        match self.fuel_reqs.get(&mass) {
            Some(requirement) => {
                assert(self.fuel_reqs@.contains_key(mass));
                return *requirement;
            },
            None => {},
        }
        let base = Calculator::calculate_fuel(mass);
        if base == 0 {
            assert(fuel_total(0) == 0);
            assert(fuel_total(mass) == 0);
            self.fuel_reqs.insert(mass, 0);
            return 0;
        }
        let extension = self.calculate_fuel_extended(base);
        proof {
            lemma_fuel_total_bounded(mass);
            assert(fuel_total(mass) == base + fuel_total(base));
        }
        self.fuel_reqs.insert(mass, base + extension);
        base + extension
    }
}

} // verus!
