//! How the prover's table circuits are sized, loaded and kept.
use vstd::prelude::*;

verus! {

/// How the table circuits are brought into memory.
#[derive(Clone, Copy, Debug, PartialEq, Eq, Structural)]
pub enum TableLoadStrategy {
    /// Each table circuit is loaded when it is first needed.
    OnDemand,
    /// All table circuits are loaded at once.
    Monolithic,
}

/// Whether the processed circuits are kept, and how they are loaded again.
#[derive(Clone, Copy, Debug, PartialEq, Eq, Structural)]
pub enum CircuitPersistence {
    /// The circuits are not kept.
    Off,
    /// The circuits are kept on disk and loaded by the given strategy.
    Disk(TableLoadStrategy),
}

/// The table circuits.
#[derive(Clone, Copy, Debug, PartialEq, Eq, Structural)]
pub enum Circuit {
    Arithmetic,
    BytePacking,
    Cpu,
    Keccak,
    KeccakSponge,
    Logic,
    Memory,
}

/// The range of sizes, as bit counts, that a table circuit is built for:
/// from `start` up to, not including, `end`.
#[derive(Clone, Copy, Debug, PartialEq, Eq, Structural)]
pub struct CircuitSize {
    pub start: usize,
    pub end: usize,
}

/// The sizes chosen for the table circuits. A circuit without a chosen size
/// keeps the size that the prover builds it with by default.
#[derive(Clone, Copy, Debug, PartialEq, Eq, Structural)]
pub struct CircuitConfig {
    pub arithmetic: Option<CircuitSize>,
    pub byte_packing: Option<CircuitSize>,
    pub cpu: Option<CircuitSize>,
    pub keccak: Option<CircuitSize>,
    pub keccak_sponge: Option<CircuitSize>,
    pub logic: Option<CircuitSize>,
    pub memory: Option<CircuitSize>,
}

/// What the prover state is set up from.
#[derive(Clone, Copy, Debug, PartialEq, Eq, Structural)]
pub struct ProverStateManager {
    pub circuit_config: CircuitConfig,
    pub persistence: CircuitPersistence,
}

impl Default for CircuitConfig {
    /// The configuration in which no circuit has a chosen size.
    fn default() -> (r: Self)
        ensures
            forall|circuit: Circuit| r.chosen(circuit).is_none(),
    {
        CircuitConfig::new()
    }
}

impl CircuitConfig {
    /// The size chosen for `circuit`, if one was.
    pub open spec fn chosen(self, circuit: Circuit) -> Option<CircuitSize> {
        match circuit {
            Circuit::Arithmetic => self.arithmetic,
            Circuit::BytePacking => self.byte_packing,
            Circuit::Cpu => self.cpu,
            Circuit::Keccak => self.keccak,
            Circuit::KeccakSponge => self.keccak_sponge,
            Circuit::Logic => self.logic,
            Circuit::Memory => self.memory,
        }
    }

    /// The configuration in which no circuit has a chosen size.
    pub fn new() -> (r: Self)
        ensures
            forall|circuit: Circuit| r.chosen(circuit).is_none(),
    {
        CircuitConfig {
            arithmetic: None,
            byte_packing: None,
            cpu: None,
            keccak: None,
            keccak_sponge: None,
            logic: None,
            memory: None,
        }
    }

    /// The size chosen for `circuit`, if one was.
    pub fn get_circuit_size(&self, circuit: Circuit) -> (r: Option<CircuitSize>)
        ensures
            r == self.chosen(circuit),
    {
        match circuit {
            Circuit::Arithmetic => self.arithmetic,
            Circuit::BytePacking => self.byte_packing,
            Circuit::Cpu => self.cpu,
            Circuit::Keccak => self.keccak,
            Circuit::KeccakSponge => self.keccak_sponge,
            Circuit::Logic => self.logic,
            Circuit::Memory => self.memory,
        }
    }

    /// Chooses `size` for `circuit` and leaves every other circuit as it is.
    pub fn set_circuit_size(&mut self, circuit: Circuit, size: CircuitSize)
        ensures
            final(self).chosen(circuit) == Some(size),
            forall|other: Circuit|
                other != circuit ==> final(self).chosen(other) == old(self).chosen(other),
    {
        match circuit {
            Circuit::Arithmetic => self.arithmetic = Some(size),
            Circuit::BytePacking => self.byte_packing = Some(size),
            Circuit::Cpu => self.cpu = Some(size),
            Circuit::Keccak => self.keccak = Some(size),
            Circuit::KeccakSponge => self.keccak_sponge = Some(size),
            Circuit::Logic => self.logic = Some(size),
            Circuit::Memory => self.memory = Some(size),
        }
    }
}

} // verus!
