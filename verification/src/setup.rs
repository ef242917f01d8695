//! Helpers for setting up the nodes of a rollup: reading the wallet tool's
//! output, naming nodes, building the tool's command lines, and the fixed
//! part of the rollup configuration.
//!
//! Nothing here runs a command or touches a file: the caller does that and
//! hands the text in.

use rand::Rng;
use vstd::prelude::*;
use vstd::string::*;
use crate::text::{
    contains, contains_text, decimal, decimal_string, hex_encode, hex_lower, look_after_in_line,
    looked_after, to_chars,
};
use crate::types::{copy_bytes, OutPoint};

verus! {

/// The layer-1 network that a node's wallet lives on.
#[derive(Clone, Copy, Debug, PartialEq, Eq)]
pub enum WalletNetwork {
    Testnet,
    Mainnet,
    Devnet,
}

/// How the on-chain scripts are obtained.
#[derive(Clone, Copy, Debug, PartialEq, Eq)]
pub enum ScriptsBuildMode {
    Build,
    Copy,
}

/// What a node does in the network.
#[derive(Clone, Copy, Debug, PartialEq, Eq)]
pub enum NodeMode {
    FullNode,
    Test,
    ReadOnly,
}

/// What the wallet tool tells of a key.
#[derive(Debug)]
pub struct NodeWalletInfo {
    pub testnet_address: String,
    pub mainnet_address: String,
    pub lock_hash: String,
    pub lock_arg: String,
    pub block_assembler_code_hash: String,
}

impl NodeWalletInfo {
    /// The wallet's address on `network`. A development network uses testnet
    /// addresses.
    pub fn address(&self, network: WalletNetwork) -> (r: &String)
        ensures
            *r == match network {
                WalletNetwork::Mainnet => self.mainnet_address,
                WalletNetwork::Testnet => self.testnet_address,
                WalletNetwork::Devnet => self.testnet_address,
            },
    {
        match network {
            WalletNetwork::Mainnet => &self.mainnet_address,
            WalletNetwork::Testnet => &self.testnet_address,
            WalletNetwork::Devnet => &self.testnet_address,
        }
    }
}

/// What a set-up run is given.
#[derive(Clone, Copy, Debug)]
pub struct SetupArgs<'a> {
    pub ckb_rpc_url: &'a str,
    pub indexer_url: Option<&'a str>,
    pub mode: ScriptsBuildMode,
    pub build_scripts_config_path: &'a str,
    pub privkey_path: &'a str,
    pub nodes_count: usize,
    pub server_url: &'a str,
    pub output_dir: &'a str,
    pub setup_config_path: &'a str,
    pub wallet_network: WalletNetwork,
}

/// True if the wallet tool's output names every value that
/// `get_wallet_info` reads.
pub open spec fn wallet_info_present(stdout: Seq<char>, stderr: Seq<char>) -> bool {
    &&& contains_text(stdout, "testnet:"@)
    &&& contains_text(stdout, "mainnet:"@)
    &&& contains_text(stdout, "lock_hash:"@)
    &&& contains_text(stdout, "lock_arg:"@)
    &&& contains_text(stderr, "code_hash ="@)
}

/// True if the wallet tool's output names every value that
/// `get_wallet_info` reads.
pub fn has_wallet_info(stdout: &str, stderr: &str) -> (r: bool)
    ensures
        r == wallet_info_present(stdout@, stderr@),
{
    contains(stdout, "testnet:") && contains(stdout, "mainnet:") && contains(stdout, "lock_hash:")
        && contains(stdout, "lock_arg:") && contains(stderr, "code_hash =")
}

/// Reads the key information that the wallet tool printed: the two
/// addresses, the lock hash and the lock argument from its standard output,
/// the block assembler's code hash from its standard error. Each value is
/// what stands after its label, up to the end of the line, without quotes
/// and spaces around it.
pub fn get_wallet_info(stdout: &str, stderr: &str) -> (r: NodeWalletInfo)
    requires
        wallet_info_present(stdout@, stderr@),
    ensures
        r.testnet_address@ == looked_after(stdout@, "testnet:"@),
        r.mainnet_address@ == looked_after(stdout@, "mainnet:"@),
        r.lock_hash@ == looked_after(stdout@, "lock_hash:"@),
        r.lock_arg@ == looked_after(stdout@, "lock_arg:"@),
        r.block_assembler_code_hash@ == looked_after(stderr@, "code_hash ="@),
{
    NodeWalletInfo {
        testnet_address: look_after_in_line(stdout, "testnet:"),
        mainnet_address: look_after_in_line(stdout, "mainnet:"),
        lock_hash: look_after_in_line(stdout, "lock_hash:"),
        lock_arg: look_after_in_line(stdout, "lock_arg:"),
        block_assembler_code_hash: look_after_in_line(stderr, "code_hash ="),
    }
}

/// The values of a list of strings.
pub open spec fn strings_view(v: Seq<String>) -> Seq<Seq<char>> {
    v.map_values(|s: String| s@)
}

/// The arguments with which the wallet tool tells of the key in the file at
/// `privkey_path`.
pub fn key_info_args(privkey_path: &str) -> (r: Vec<String>)
    ensures
        strings_view(r@) == seq!["util"@, "key-info"@, "--privkey-path"@, privkey_path@],
{
    let mut r: Vec<String> = Vec::new();
    r.push(String::from_str("util"));
    r.push(String::from_str("key-info"));
    r.push(String::from_str("--privkey-path"));
    r.push(String::from_str(privkey_path));
    assert(strings_view(r@) =~= seq!["util"@, "key-info"@, "--privkey-path"@, privkey_path@]);
    r
}

/// The arguments with which the wallet tool tells the capacity of an
/// address.
pub fn wallet_capacity_args(address: &str) -> (r: Vec<String>)
    ensures
        strings_view(r@) == seq!["wallet"@, "get-capacity"@, "--address"@, address@],
{
    let mut r: Vec<String> = Vec::new();
    r.push(String::from_str("wallet"));
    r.push(String::from_str("get-capacity"));
    r.push(String::from_str("--address"));
    r.push(String::from_str(address));
    assert(strings_view(r@) =~= seq!["wallet"@, "get-capacity"@, "--address"@, address@]);
    r
}

/// True if `i` is where the first word of `s` ends: at the first space, or
/// at the end of `s` if it has none.
pub open spec fn is_word_end(s: Seq<char>, i: int) -> bool {
    &&& 0 <= i <= s.len()
    &&& forall|j: int| 0 <= j < i ==> s[j] != ' '
    &&& i < s.len() ==> s[i] == ' '
}

/// The part of `s` before its first space.
pub open spec fn first_word(s: Seq<char>) -> Seq<char> {
    s.subrange(0, choose|i: int| is_word_end(s, i))
}

/// The capacity that the wallet tool printed, as it printed it: the first
/// word after `total:`. The label must be in the output.
pub fn wallet_capacity_text(stdout: &str) -> (r: String)
    requires
        contains_text(stdout@, "total:"@),
    ensures
        r@ == first_word(looked_after(stdout@, "total:"@)),
{
    let total = look_after_in_line(stdout, "total:");
    let chars = to_chars(total.as_str());
    let mut e: usize = 0;
    while e < chars.len() && chars[e] != ' '
        invariant
            e <= chars@.len(),
            forall|j: int| 0 <= j < e ==> chars@[j] != ' ',
        decreases chars@.len() - e,
    {
        e = e + 1;
    }
    proof {
        let s = chars@;
        let w = choose|i: int| is_word_end(s, i);
        assert(is_word_end(s, e as int));
        if w < e {
            assert(s[w] != ' ');
        }
        if e < w {
            assert(s[e as int] != ' ');
        }
    }
    String::from_str(total.as_str().substring_char(0, e))
}

/// The arguments with which the wallet tool moves `ckb_amount` to a node's
/// wallet, paid from the key in the file at `payer_privkey_path`, for a fee
/// of 0.1.
pub fn transfer_ckb_args(
    node_wallet: &NodeWalletInfo,
    payer_privkey_path: &str,
    ckb_amount: u64,
    network: WalletNetwork,
) -> (r: Vec<String>)
    ensures
        strings_view(r@) == seq![
            "wallet"@,
            "transfer"@,
            "--to-address"@,
            match network {
                WalletNetwork::Mainnet => node_wallet.mainnet_address@,
                _ => node_wallet.testnet_address@,
            },
            "--capacity"@,
            decimal(ckb_amount as nat),
            "--tx-fee"@,
            "0.1"@,
            "--privkey-path"@,
            payer_privkey_path@,
        ],
{
    let mut r: Vec<String> = Vec::new();
    r.push(String::from_str("wallet"));
    r.push(String::from_str("transfer"));
    r.push(String::from_str("--to-address"));
    r.push(String::from_str(node_wallet.address(network).as_str()));
    r.push(String::from_str("--capacity"));
    r.push(decimal_string(ckb_amount));
    r.push(String::from_str("--tx-fee"));
    r.push(String::from_str("0.1"));
    r.push(String::from_str("--privkey-path"));
    r.push(String::from_str(payer_privkey_path));
    assert(strings_view(r@) =~= seq![
        "wallet"@,
        "transfer"@,
        "--to-address"@,
        match network {
            WalletNetwork::Mainnet => node_wallet.mainnet_address@,
            _ => node_wallet.testnet_address@,
        },
        "--capacity"@,
        decimal(ckb_amount as nat),
        "--tx-fee"@,
        "0.1"@,
        "--privkey-path"@,
        payer_privkey_path@,
    ]);
    r
}

/// The name of the node at `index`, counted from zero: `node1`, `node2`, ...
pub open spec fn node_name_spec(index: int) -> Seq<char> {
    "node"@ + decimal((index + 1) as nat)
}

/// The name of the node at `index`, counted from zero.
pub fn node_name(index: u64) -> (r: String)
    requires
        index < u64::MAX,
    ensures
        r@ == node_name_spec(index as int),
{
    let mut r = String::from_str("node");
    let number = decimal_string(index + 1);
    r.append(number.as_str());
    r
}

/// The first node is the full node; every other node only reads.
pub fn node_mode(index: usize) -> (r: NodeMode)
    ensures
        r == if index == 0 {
            NodeMode::FullNode
        } else {
            NodeMode::ReadOnly
        },
{
    if index == 0 {
        NodeMode::FullNode
    } else {
        NodeMode::ReadOnly
    }
}

/// The names of the nodes to set up, in order.
pub fn setup_nodes(nodes_count: usize) -> (r: Vec<String>)
    ensures
        r@.len() == nodes_count,
        forall|i: int| 0 <= i < nodes_count ==> (#[trigger] r@[i])@ == node_name_spec(i),
{
    let mut r: Vec<String> = Vec::new();
    let mut i: usize = 0;
    while i < nodes_count
        invariant
            i <= nodes_count,
            r@.len() == i,
            forall|k: int| 0 <= k < i ==> (#[trigger] r@[k])@ == node_name_spec(k),
        decreases nodes_count - i,
    {
        r.push(node_name(i as u64));
        i = i + 1;
    }
    r
}

/// `rand::thread_rng().gen::<[u8; 32]>()`: 32 bytes from the thread's random
/// number generator. Nothing is claimed of them.
#[verifier::external_body]
fn random_key() -> (r: [u8; 32]) {
    rand::thread_rng().gen::<[u8; 32]>()
}

/// A private key as the key file holds it.
pub open spec fn privkey_text_spec(key: Seq<u8>) -> Seq<char> {
    "0x"@ + hex_lower(key)
}

/// A private key as the key file holds it: `0x` and the key in lower-case
/// hex.
pub fn privkey_text(key: &[u8; 32]) -> (r: String)
    ensures
        r@ == privkey_text_spec(key@),
{
    let mut r = String::from_str("0x");
    let digits = hex_encode(key.as_slice());
    r.append(digits.as_str());
    r
}

/// The content of a new key file: a fresh random key.
pub fn generate_privkey() -> (r: String)
    ensures
        exists|key: Seq<u8>| key.len() == 32 && r@ == privkey_text_spec(key),
{
    let key = random_key();
    let r = privkey_text(&key);
    assert(key@.len() == 32 && r@ == privkey_text_spec(key@));
    r
}

/// A layer-1 script.
#[derive(Clone, Debug, PartialEq, Eq)]
pub struct Script {
    pub code_hash: [u8; 32],
    pub hash_type: u8,
    pub args: Vec<u8>,
}

/// The mathematical value of a [`Script`].
pub struct ScriptView {
    pub code_hash: [u8; 32],
    pub hash_type: u8,
    pub args: Seq<u8>,
}

impl View for Script {
    type V = ScriptView;

    open spec fn view(&self) -> ScriptView {
        ScriptView { code_hash: self.code_hash, hash_type: self.hash_type, args: self.args@ }
    }
}

impl Script {
    /// A script with the same value.
    pub fn duplicate(&self) -> (r: Script)
        ensures
            r@ == self@,
    {
        Script { code_hash: self.code_hash, hash_type: self.hash_type, args: copy_bytes(&self.args) }
    }
}

/// A cell that a transaction depends on.
#[derive(Clone, Copy, Debug, PartialEq, Eq)]
pub struct CellDep {
    pub out_point: OutPoint,
    pub dep_type: u8,
}

/// What the operator configures for a set-up run.
#[derive(Debug)]
pub struct SetupConfig {
    pub l1_sudt_script_type_hash: [u8; 32],
    pub l1_sudt_cell_dep: CellDep,
    pub node_initial_ckb: u64,
    pub cells_lock: Script,
    pub burn_lock: Script,
    pub reward_lock: Script,
}

/// The configuration of a rollup.
#[derive(Debug)]
pub struct UserRollupConfig {
    pub l1_sudt_script_type_hash: [u8; 32],
    pub l1_sudt_cell_dep: CellDep,
    pub burn_lock: Script,
    pub reward_lock: Script,
    pub required_staking_capacity: u64,
    pub challenge_maturity_blocks: u64,
    pub finality_blocks: u64,
    pub reward_burn_rate: u8,
    pub chain_id: u64,
    pub allowed_eoa_type_hashes: Vec<[u8; 32]>,
    pub allowed_contract_type_hashes: Vec<[u8; 32]>,
    pub cells_lock: Script,
}

/// The rollup configuration for a set-up run: the scripts and the cell
/// dependency come from the run's configuration, the rest is fixed.
pub fn generate_rollup_config(setup_config: &SetupConfig) -> (r: UserRollupConfig)
    ensures
        r.l1_sudt_script_type_hash == setup_config.l1_sudt_script_type_hash,
        r.l1_sudt_cell_dep == setup_config.l1_sudt_cell_dep,
        r.burn_lock@ == setup_config.burn_lock@,
        r.reward_lock@ == setup_config.reward_lock@,
        r.cells_lock@ == setup_config.cells_lock@,
        r.required_staking_capacity == 10_000_000_000,
        r.challenge_maturity_blocks == 450,
        r.finality_blocks == 3600,
        r.reward_burn_rate == 50,
        r.chain_id == 0,
        r.allowed_eoa_type_hashes@.len() == 0,
        r.allowed_contract_type_hashes@.len() == 0,
{
    UserRollupConfig {
        l1_sudt_script_type_hash: setup_config.l1_sudt_script_type_hash,
        l1_sudt_cell_dep: setup_config.l1_sudt_cell_dep,
        burn_lock: setup_config.burn_lock.duplicate(),
        reward_lock: setup_config.reward_lock.duplicate(),
        required_staking_capacity: 10_000_000_000u64,
        challenge_maturity_blocks: 450,
        finality_blocks: 3600,
        reward_burn_rate: 50,
        chain_id: 0,
        allowed_eoa_type_hashes: Vec::new(),
        allowed_contract_type_hashes: Vec::new(),
        cells_lock: setup_config.cells_lock.duplicate(),
    }
}

} // verus!
