//! The command-line values from which the prover state and the blocks to
//! prove are chosen.
use vstd::prelude::*;
use vstd::string::StringExecFns;
use crate::prover_state::{
    Circuit,
    CircuitConfig,
    CircuitSize,
    ProverStateManager,
    TableLoadStrategy,
};

verus! {

/// Whether to keep the processed circuits, as given on the command line.
#[derive(Clone, Copy, Debug, PartialEq, Eq, Structural)]
pub enum CircuitPersistence {
    /// Do not keep the processed circuits.
    Off,
    /// Keep the processed circuits on disk.
    Disk,
}

/// The prover-state part of the command line: persistence, load strategy,
/// and a size for each table circuit that is to differ from its default.
#[derive(Clone, Copy, Debug, PartialEq, Eq)]
pub struct CliProverStateConfig {
    pub persistence: CircuitPersistence,
    pub load_strategy: TableLoadStrategy,
    pub arithmetic: Option<CircuitSize>,
    pub byte_packing: Option<CircuitSize>,
    pub cpu: Option<CircuitSize>,
    pub keccak: Option<CircuitSize>,
    pub keccak_sponge: Option<CircuitSize>,
    pub logic: Option<CircuitSize>,
    pub memory: Option<CircuitSize>,
}

/// Neither a block number nor any end of a range was given.
#[derive(Clone, Copy, Debug, PartialEq, Eq, Structural)]
pub struct InvalidBlockRange;

/// The help text for the size argument of the table circuit named
/// `circuit_name`.
pub fn circuit_arg_desc(circuit_name: &str) -> (r: String)
    ensures
        r@ == "The min/max size for the "@ + circuit_name@ + " table circuit."@,
{
    let mut out = String::from_str("The min/max size for the ");
    out.append(circuit_name);
    out.append(" table circuit.");
    out
}

impl CircuitPersistence {
    /// The persistence with its load strategy: on disk the circuits are
    /// loaded by `load_strategy`; where nothing is kept no strategy applies.
    pub open spec fn loaded_by(self, load_strategy: TableLoadStrategy)
        -> crate::prover_state::CircuitPersistence {
        match self {
            CircuitPersistence::Off => crate::prover_state::CircuitPersistence::Off,
            CircuitPersistence::Disk => crate::prover_state::CircuitPersistence::Disk(
                load_strategy,
            ),
        }
    }

    /// Joins the command line's persistence with its load strategy.
    pub fn with_load_strategy(self, load_strategy: TableLoadStrategy) -> (r:
        crate::prover_state::CircuitPersistence)
        ensures
            r == self.loaded_by(load_strategy),
    {
        match self {
            CircuitPersistence::Off => crate::prover_state::CircuitPersistence::Off,
            CircuitPersistence::Disk => crate::prover_state::CircuitPersistence::Disk(
                load_strategy,
            ),
        }
    }

    /// The word for this value on the command line.
    pub fn as_str(&self) -> (r: &'static str)
        ensures
            r@ == (match *self {
                CircuitPersistence::Off => "none"@,
                CircuitPersistence::Disk => "disk"@,
            }),
    {
        match self {
            CircuitPersistence::Off => "none",
            CircuitPersistence::Disk => "disk",
        }
    }
}

impl CliProverStateConfig {
    /// The size that the command line gives for `circuit`, if it gives one.
    pub open spec fn requested(self, circuit: Circuit) -> Option<CircuitSize> {
        match circuit {
            Circuit::Arithmetic => self.arithmetic,
            Circuit::BytePacking => self.byte_packing,
            Circuit::Cpu => self.cpu,
            Circuit::Keccak => self.keccak,
            Circuit::KeccakSponge => self.keccak_sponge,
            Circuit::Logic => self.logic,
            Circuit::Memory => self.memory,
        }
    }

    fn set_if_given(config: &mut CircuitConfig, circuit: Circuit, size: Option<CircuitSize>)
        ensures
            final(config).chosen(circuit) == (match size {
                Some(given) => Some(given),
                None => old(config).chosen(circuit),
            }),
            forall|other: Circuit|
                other != circuit ==> final(config).chosen(other) == old(config).chosen(other),
    {
        match size {
            Some(given) => config.set_circuit_size(circuit, given),
            None => {},
        }
    }

    /// The circuit configuration that the command line asks for: each
    /// circuit has the size given for it, and no chosen size where none was
    /// given.
    pub fn into_circuit_config(self) -> (r: CircuitConfig)
        ensures
            forall|circuit: Circuit| r.chosen(circuit) == self.requested(circuit),
    {
        let mut config = CircuitConfig::default();
        Self::set_if_given(&mut config, Circuit::Arithmetic, self.arithmetic);
        Self::set_if_given(&mut config, Circuit::BytePacking, self.byte_packing);
        Self::set_if_given(&mut config, Circuit::Cpu, self.cpu);
        Self::set_if_given(&mut config, Circuit::Keccak, self.keccak);
        Self::set_if_given(&mut config, Circuit::KeccakSponge, self.keccak_sponge);
        Self::set_if_given(&mut config, Circuit::Logic, self.logic);
        Self::set_if_given(&mut config, Circuit::Memory, self.memory);
        config
    }

    /// What the prover state is set up from, as the command line asks.
    pub fn into_prover_state_manager(self) -> (r: ProverStateManager)
        ensures
            r.persistence == self.persistence.loaded_by(self.load_strategy),
            forall|circuit: Circuit| r.circuit_config.chosen(circuit) == self.requested(circuit),
    {
        ProverStateManager {
            persistence: self.persistence.with_load_strategy(self.load_strategy),
            circuit_config: self.into_circuit_config(),
        }
    }
}

impl From<CliProverStateConfig> for ProverStateManager {
    fn from(config: CliProverStateConfig) -> (r: Self) {
        let manager = config.into_prover_state_manager();
        proof {
            let chosen = manager.circuit_config;
            assert(chosen.chosen(Circuit::Arithmetic) == config.requested(Circuit::Arithmetic));
            assert(chosen.chosen(Circuit::BytePacking) == config.requested(Circuit::BytePacking));
            assert(chosen.chosen(Circuit::Cpu) == config.requested(Circuit::Cpu));
            assert(chosen.chosen(Circuit::Keccak) == config.requested(Circuit::Keccak));
            assert(chosen.chosen(Circuit::KeccakSponge) == config.requested(Circuit::KeccakSponge));
            assert(chosen.chosen(Circuit::Logic) == config.requested(Circuit::Logic));
            assert(chosen.chosen(Circuit::Memory) == config.requested(Circuit::Memory));
        }
        manager
    }
}

impl vstd::std_specs::convert::FromSpecImpl<CliProverStateConfig> for ProverStateManager {
    open spec fn obeys_from_spec() -> bool {
        true
    }

    open spec fn from_spec(config: CliProverStateConfig) -> Self {
        ProverStateManager {
            circuit_config: CircuitConfig {
                arithmetic: config.arithmetic,
                byte_packing: config.byte_packing,
                cpu: config.cpu,
                keccak: config.keccak,
                keccak_sponge: config.keccak_sponge,
                logic: config.logic,
                memory: config.memory,
            },
            persistence: config.persistence.loaded_by(config.load_strategy),
        }
    }
}

/// The blocks that the three optional inputs select, first and last. A
/// single block number wins over a range; a range with one end given is
/// that one block.
pub open spec fn selected_blocks(block_number: Option<u64>, from: Option<u64>, to: Option<u64>)
    -> Option<(u64, u64)> {
    match block_number {
        Some(number) => Some((number, number)),
        None => match (from, to) {
            (Some(start), Some(end)) => Some((start, end)),
            (Some(start), None) => Some((start, start)),
            (None, Some(end)) => Some((end, end)),
            (None, None) => None,
        },
    }
}

/// Turns a block number, or the start and end of a range, into the first
/// and last block to process. Fails only where none of the three is given.
pub fn parse_blocks_input(block_number: Option<u64>, from: Option<u64>, to: Option<u64>) -> (r:
    Result<[u64; 2], InvalidBlockRange>)
    ensures
        match r {
            Ok(range) => selected_blocks(block_number, from, to) == Some((range[0], range[1])),
            Err(_) => selected_blocks(block_number, from, to).is_none(),
        },
{
    match block_number {
        Some(number) => Ok([number, number]),
        None => match (from, to) {
            (Some(start), Some(end)) => Ok([start, end]),
            (Some(start), None) => Ok([start, start]),
            (None, Some(end)) => Ok([end, end]),
            (None, None) => Err(InvalidBlockRange),
        },
    }
}

} // verus!
