use gw_psc::setup::{
    generate_privkey, generate_rollup_config, get_wallet_info, has_wallet_info, key_info_args,
    node_mode, node_name, privkey_text, setup_nodes, transfer_ckb_args, wallet_capacity_args,
    wallet_capacity_text, CellDep, NodeMode, NodeWalletInfo, Script, ScriptsBuildMode, SetupArgs,
    SetupConfig, WalletNetwork,
};
use gw_psc::types::OutPoint;

const KEY_INFO_OUT: &str = "address:\n  mainnet: ckb1qyqmain\n  testnet: ckt1qyqtest\nlock_arg: 0x00aa\nlock_hash: 0x00bb\npubkey: 02ff\n";
const KEY_INFO_ERR: &str = "Put this config in < ckb.toml >:\n\n[block_assembler]\ncode_hash = \"0x9bd7\"\nhash_type = \"type\"\n";

fn wallet() -> NodeWalletInfo {
    NodeWalletInfo {
        testnet_address: "ckt1qyqtest".to_string(),
        mainnet_address: "ckb1qyqmain".to_string(),
        lock_hash: "0x00bb".to_string(),
        lock_arg: "0x00aa".to_string(),
        block_assembler_code_hash: "0x9bd7".to_string(),
    }
}

#[test]
fn get_wallet_info_reads_the_tool_output() {
    assert!(has_wallet_info(KEY_INFO_OUT, KEY_INFO_ERR));
    let info = get_wallet_info(KEY_INFO_OUT, KEY_INFO_ERR);
    assert_eq!(info.testnet_address, "ckt1qyqtest");
    assert_eq!(info.mainnet_address, "ckb1qyqmain");
    assert_eq!(info.lock_hash, "0x00bb");
    assert_eq!(info.lock_arg, "0x00aa");
    assert_eq!(info.block_assembler_code_hash, "0x9bd7");
}

#[test]
fn has_wallet_info_misses_each_label() {
    assert!(!has_wallet_info("", ""));
    assert!(!has_wallet_info(KEY_INFO_OUT, ""));
    assert!(!has_wallet_info("", KEY_INFO_ERR));
    for label in ["testnet:", "mainnet:", "lock_hash:", "lock_arg:"] {
        let cut = KEY_INFO_OUT.replace(label, "gone");
        assert!(!has_wallet_info(&cut, KEY_INFO_ERR), "{}", label);
    }
    assert!(!has_wallet_info(KEY_INFO_OUT, &KEY_INFO_ERR.replace("code_hash =", "code_hash:")));
}

#[test]
fn address_follows_the_network() {
    let w = wallet();
    assert_eq!(w.address(WalletNetwork::Mainnet), "ckb1qyqmain");
    assert_eq!(w.address(WalletNetwork::Testnet), "ckt1qyqtest");
    assert_eq!(w.address(WalletNetwork::Devnet), "ckt1qyqtest");
}

#[test]
fn tool_arguments_are_in_order() {
    assert_eq!(
        key_info_args("/tmp/pk"),
        vec!["util", "key-info", "--privkey-path", "/tmp/pk"]
    );
    assert_eq!(
        wallet_capacity_args("ckt1qyqtest"),
        vec!["wallet", "get-capacity", "--address", "ckt1qyqtest"]
    );
    assert_eq!(
        transfer_ckb_args(&wallet(), "/payer/pk", 10_000, WalletNetwork::Devnet),
        vec![
            "wallet",
            "transfer",
            "--to-address",
            "ckt1qyqtest",
            "--capacity",
            "10000",
            "--tx-fee",
            "0.1",
            "--privkey-path",
            "/payer/pk"
        ]
    );
    assert_eq!(
        transfer_ckb_args(&wallet(), "pk", 0, WalletNetwork::Mainnet)[3],
        "ckb1qyqmain"
    );
    assert_eq!(
        transfer_ckb_args(&wallet(), "pk", u64::MAX, WalletNetwork::Testnet)[5],
        "18446744073709551615"
    );
}

#[test]
fn wallet_capacity_text_is_the_first_word_after_total() {
    assert_eq!(wallet_capacity_text("immature: 0.0 (CKB)\ntotal: 1234.5 (CKB)\n"), "1234.5");
    assert_eq!(wallet_capacity_text("total: 0.0"), "0.0");
    assert_eq!(wallet_capacity_text("total:\n"), "");
    let capacity: f64 = wallet_capacity_text("total: 20000.0 (CKB)").parse().unwrap();
    assert!(capacity > 0f64);
}

#[test]
fn nodes_are_named_from_one() {
    assert_eq!(node_name(0), "node1");
    assert_eq!(node_name(9), "node10");
    assert_eq!(setup_nodes(0), Vec::<String>::new());
    assert_eq!(setup_nodes(3), vec!["node1", "node2", "node3"]);
    assert_eq!(setup_nodes(12)[11], "node12");
    assert_eq!(node_mode(0), NodeMode::FullNode);
    assert_eq!(node_mode(1), NodeMode::ReadOnly);
    assert_eq!(node_mode(7), NodeMode::ReadOnly);
}

#[test]
fn privkey_text_is_0x_and_lower_hex() {
    let mut key = [0u8; 32];
    for (i, b) in key.iter_mut().enumerate() {
        *b = (i as u8) * 8 + 7;
    }
    let text = privkey_text(&key);
    assert_eq!(
        text,
        "0x070f171f272f373f474f575f676f777f878f979fa7afb7bfc7cfd7dfe7eff7ff"
    );
    assert_eq!(privkey_text(&[0xab; 32]), format!("0x{}", "ab".repeat(32)));
}

#[test]
fn generated_privkey_has_the_file_form() {
    let a = generate_privkey();
    let b = generate_privkey();
    for text in [&a, &b] {
        assert_eq!(text.len(), 66);
        assert!(text.starts_with("0x"));
        assert!(text[2..]
            .chars()
            .all(|c| c.is_ascii_digit() || ('a'..='f').contains(&c)));
    }
    assert_ne!(a, b);
}

#[test]
fn rollup_config_takes_scripts_and_fixed_values() {
    let script = |b: u8| Script { code_hash: [b; 32], hash_type: 1, args: vec![b, b] };
    let config = SetupConfig {
        l1_sudt_script_type_hash: [3; 32],
        l1_sudt_cell_dep: CellDep { out_point: OutPoint::new([4; 32], 2), dep_type: 0 },
        node_initial_ckb: 1000,
        cells_lock: script(5),
        burn_lock: script(6),
        reward_lock: script(7),
    };
    let r = generate_rollup_config(&config);
    assert_eq!(r.l1_sudt_script_type_hash, [3; 32]);
    assert_eq!(r.l1_sudt_cell_dep, config.l1_sudt_cell_dep);
    assert_eq!(r.cells_lock, script(5));
    assert_eq!(r.burn_lock, script(6));
    assert_eq!(r.reward_lock, script(7));
    assert_eq!(r.required_staking_capacity, 10_000_000_000);
    assert_eq!(r.challenge_maturity_blocks, 450);
    assert_eq!(r.finality_blocks, 3600);
    assert_eq!(r.reward_burn_rate, 50);
    assert_eq!(r.chain_id, 0);
    assert!(r.allowed_eoa_type_hashes.is_empty());
    assert!(r.allowed_contract_type_hashes.is_empty());
}

#[test]
fn setup_args_hold_what_they_are_given() {
    let args = SetupArgs {
        ckb_rpc_url: "http://127.0.0.1:8114",
        indexer_url: None,
        mode: ScriptsBuildMode::Build,
        build_scripts_config_path: "build.json",
        privkey_path: "pk",
        nodes_count: 2,
        server_url: "localhost:8119",
        output_dir: "out",
        setup_config_path: "setup.json",
        wallet_network: WalletNetwork::Devnet,
    };
    assert_eq!(setup_nodes(args.nodes_count).len(), 2);
    assert_eq!(args.mode, ScriptsBuildMode::Build);
    assert_ne!(args.mode, ScriptsBuildMode::Copy);
    assert_eq!(args.wallet_network, WalletNetwork::Devnet);
}
