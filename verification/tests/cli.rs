use zero_prover::cli::{
    circuit_arg_desc, parse_blocks_input, CircuitPersistence, CliProverStateConfig, InvalidBlockRange,
};
use zero_prover::prover_state;
use zero_prover::prover_state::{Circuit, CircuitConfig, CircuitSize, TableLoadStrategy};

fn bare_config() -> CliProverStateConfig {
    CliProverStateConfig {
        persistence: CircuitPersistence::Disk,
        load_strategy: TableLoadStrategy::OnDemand,
        arithmetic: None,
        byte_packing: None,
        cpu: None,
        keccak: None,
        keccak_sponge: None,
        logic: None,
        memory: None,
    }
}

#[test]
fn single_block_number_wins() {
    assert_eq!(parse_blocks_input(Some(5), None, None), Ok([5, 5]));
    assert_eq!(parse_blocks_input(Some(5), Some(1), Some(9)), Ok([5, 5]));
}

#[test]
fn range_with_both_ends() {
    assert_eq!(parse_blocks_input(None, Some(1), Some(9)), Ok([1, 9]));
}

#[test]
fn range_with_one_end_is_one_block() {
    assert_eq!(parse_blocks_input(None, Some(4), None), Ok([4, 4]));
    assert_eq!(parse_blocks_input(None, None, Some(6)), Ok([6, 6]));
}

#[test]
fn no_input_is_an_error() {
    assert_eq!(parse_blocks_input(None, None, None), Err(InvalidBlockRange));
}

#[test]
fn persistence_takes_the_load_strategy_on_disk_only() {
    assert_eq!(
        CircuitPersistence::Disk.with_load_strategy(TableLoadStrategy::Monolithic),
        prover_state::CircuitPersistence::Disk(TableLoadStrategy::Monolithic)
    );
    assert_eq!(
        CircuitPersistence::Disk.with_load_strategy(TableLoadStrategy::OnDemand),
        prover_state::CircuitPersistence::Disk(TableLoadStrategy::OnDemand)
    );
    assert_eq!(
        CircuitPersistence::Off.with_load_strategy(TableLoadStrategy::Monolithic),
        prover_state::CircuitPersistence::Off
    );
}

#[test]
fn persistence_words() {
    assert_eq!(CircuitPersistence::Off.as_str(), "none");
    assert_eq!(CircuitPersistence::Disk.as_str(), "disk");
}

#[test]
fn circuit_config_takes_only_given_sizes() {
    let mut cli = bare_config();
    cli.cpu = Some(CircuitSize { start: 12, end: 25 });
    cli.memory = Some(CircuitSize { start: 17, end: 28 });
    let config = cli.into_circuit_config();
    assert_eq!(config.get_circuit_size(Circuit::Cpu), Some(CircuitSize { start: 12, end: 25 }));
    assert_eq!(config.get_circuit_size(Circuit::Memory), Some(CircuitSize { start: 17, end: 28 }));
    assert_eq!(config.get_circuit_size(Circuit::Arithmetic), None);
    assert_eq!(config.get_circuit_size(Circuit::BytePacking), None);
    assert_eq!(config.get_circuit_size(Circuit::Keccak), None);
    assert_eq!(config.get_circuit_size(Circuit::KeccakSponge), None);
    assert_eq!(config.get_circuit_size(Circuit::Logic), None);
}

#[test]
fn circuit_config_without_sizes_is_the_default() {
    assert_eq!(bare_config().into_circuit_config(), CircuitConfig::new());
}

#[test]
fn each_circuit_has_its_own_size() {
    let cli = CliProverStateConfig {
        persistence: CircuitPersistence::Off,
        load_strategy: TableLoadStrategy::Monolithic,
        arithmetic: Some(CircuitSize { start: 1, end: 2 }),
        byte_packing: Some(CircuitSize { start: 3, end: 4 }),
        cpu: Some(CircuitSize { start: 5, end: 6 }),
        keccak: Some(CircuitSize { start: 7, end: 8 }),
        keccak_sponge: Some(CircuitSize { start: 9, end: 10 }),
        logic: Some(CircuitSize { start: 11, end: 12 }),
        memory: Some(CircuitSize { start: 13, end: 14 }),
    };
    let config = cli.into_circuit_config();
    let circuits = [
        Circuit::Arithmetic,
        Circuit::BytePacking,
        Circuit::Cpu,
        Circuit::Keccak,
        Circuit::KeccakSponge,
        Circuit::Logic,
        Circuit::Memory,
    ];
    for (i, circuit) in circuits.into_iter().enumerate() {
        assert_eq!(
            config.get_circuit_size(circuit),
            Some(CircuitSize { start: 2 * i + 1, end: 2 * i + 2 })
        );
    }
}

#[test]
fn set_circuit_size_changes_one_circuit() {
    let mut config = CircuitConfig::new();
    config.set_circuit_size(Circuit::Logic, CircuitSize { start: 12, end: 18 });
    assert_eq!(config.get_circuit_size(Circuit::Logic), Some(CircuitSize { start: 12, end: 18 }));
    assert_eq!(config.get_circuit_size(Circuit::Cpu), None);
    config.set_circuit_size(Circuit::Logic, CircuitSize { start: 1, end: 2 });
    assert_eq!(config.get_circuit_size(Circuit::Logic), Some(CircuitSize { start: 1, end: 2 }));
}

#[test]
fn manager_joins_persistence_and_sizes() {
    let mut cli = bare_config();
    cli.load_strategy = TableLoadStrategy::Monolithic;
    cli.keccak = Some(CircuitSize { start: 14, end: 20 });
    let manager = cli.into_prover_state_manager();
    assert_eq!(
        manager.persistence,
        prover_state::CircuitPersistence::Disk(TableLoadStrategy::Monolithic)
    );
    assert_eq!(manager.circuit_config, cli.into_circuit_config());
    assert_eq!(
        manager.circuit_config.get_circuit_size(Circuit::Keccak),
        Some(CircuitSize { start: 14, end: 20 })
    );
}

#[test]
fn default_circuit_config_chooses_nothing() {
    let config = CircuitConfig::default();
    assert_eq!(config, CircuitConfig::new());
    assert_eq!(config.get_circuit_size(Circuit::Memory), None);
}

#[test]
fn manager_from_the_command_line() {
    let mut cli = bare_config();
    cli.persistence = CircuitPersistence::Off;
    cli.logic = Some(CircuitSize { start: 12, end: 18 });
    let manager = prover_state::ProverStateManager::from(cli);
    assert_eq!(manager, cli.into_prover_state_manager());
    assert_eq!(manager.persistence, prover_state::CircuitPersistence::Off);
    assert_eq!(
        manager.circuit_config.get_circuit_size(Circuit::Logic),
        Some(CircuitSize { start: 12, end: 18 })
    );
}

#[test]
fn help_text_names_the_circuit() {
    assert_eq!(circuit_arg_desc("keccak sponge"), "The min/max size for the keccak sponge table circuit.");
    assert_eq!(circuit_arg_desc(""), "The min/max size for the  table circuit.");
}
