//! Following the rollup on layer 1: which layer-1 header was synced last,
//! which layer-2 block is the tip, which output of a layer-1 transaction is
//! the rollup's cell, and where the transaction carries the layer-2 block.

use ckb_types::bytes::Bytes;
use ckb_types::packed::{WitnessArgs, WitnessArgsReader};
use ckb_types::prelude::{Entity, Reader};
use vstd::prelude::*;
use vstd::string::*;
use crate::types::{copy_bytes, hash_eq};

verus! {

/// The account that signs blocks.
#[derive(Clone, Copy, Debug, PartialEq, Eq)]
pub struct Signer {
    account_id: u32,
}

impl Signer {
    pub closed spec fn id(&self) -> u32 {
        self.account_id
    }

    pub fn new(account_id: u32) -> (r: Signer)
        ensures
            r.id() == account_id,
    {
        Signer { account_id }
    }

    pub fn account_id(&self) -> (r: u32)
        ensures
            r == self.id(),
    {
        self.account_id
    }
}

/// A layer-1 header by number and hash.
#[derive(Clone, Copy, Debug, PartialEq, Eq)]
pub struct HeaderInfo {
    pub number: u64,
    pub block_hash: [u8; 32],
}

/// How far the chain is synced from layer 1.
#[derive(Clone, Copy, Debug, PartialEq, Eq)]
pub struct Chain {
    /// The hash of the rollup's type script.
    pub rollup_id: [u8; 32],
    /// The layer-1 header of the last synced rollup transaction.
    pub last_synced: HeaderInfo,
    /// The number of the layer-2 tip.
    pub tip_number: u64,
    /// The account that signs blocks here, if this node produces blocks.
    pub signer: Option<Signer>,
}

/// Why a rollup transaction cannot be synced next.
#[derive(Clone, Copy, Debug, PartialEq, Eq)]
pub enum SyncError {
    /// Its layer-1 block is not above the last synced one.
    NotAboveLastSynced,
    /// Its layer-2 block is not the successor of the tip.
    NotSuccessorOfTip,
}

impl SyncError {
    /// What went wrong, in words.
    pub open spec fn message_spec(self) -> Seq<char> {
        match self {
            SyncError::NotAboveLastSynced => "must greater than last synced number"@,
            SyncError::NotSuccessorOfTip => "new l2block number must be the successor of the tip"@,
        }
    }

    /// What went wrong, in words.
    pub fn message(&self) -> (r: String)
        ensures
            r@ == self.message_spec(),
    {
        match self {
            SyncError::NotAboveLastSynced => String::from_str(
                "must greater than last synced number",
            ),
            SyncError::NotSuccessorOfTip => String::from_str(
                "new l2block number must be the successor of the tip",
            ),
        }
    }
}

impl Chain {
    pub fn new(
        rollup_id: [u8; 32],
        tip_number: u64,
        last_synced: HeaderInfo,
        signer: Option<Signer>,
    ) -> (r: Chain)
        ensures
            r == (Chain { rollup_id, last_synced, tip_number, signer }),
    {
        Chain { rollup_id, last_synced, tip_number, signer }
    }

    /// What stands against syncing a rollup transaction in the layer-1 block
    /// `header` that carries the layer-2 block with number `l2_number`.
    pub open spec fn fault(self, header: HeaderInfo, l2_number: u64) -> Option<SyncError> {
        if header.number <= self.last_synced.number {
            Some(SyncError::NotAboveLastSynced)
        } else if l2_number != self.tip_number + 1 {
            Some(SyncError::NotSuccessorOfTip)
        } else {
            None
        }
    }

    /// True if the layer-1 block `header` is above the last synced one, as
    /// the block of the next rollup transaction must be.
    pub fn is_above_last_synced(&self, header: &HeaderInfo) -> (r: bool)
        ensures
            r == (header.number > self.last_synced.number),
            !r ==> forall|l2_number: u64| #[trigger]
                self.fault(*header, l2_number) == Some(SyncError::NotAboveLastSynced),
    {
        header.number > self.last_synced.number
    }

    /// Syncs one rollup transaction from layer 1: its layer-1 block must be
    /// above the last synced one and its layer-2 block must be the successor
    /// of the tip. Then both move on; otherwise nothing changes.
    pub fn sync(&mut self, header: HeaderInfo, l2_number: u64) -> (r: Result<(), SyncError>)
        ensures
            match r {
                Ok(_) => old(self).fault(header, l2_number) is None && *final(self) == (Chain {
                    last_synced: header,
                    tip_number: l2_number,
                    ..*old(self)
                }),
                Err(e) => old(self).fault(header, l2_number) == Some(e) && *final(self) == *old(self),
            },
    {
        if header.number <= self.last_synced.number {
            return Err(SyncError::NotAboveLastSynced);
        }
        if self.tip_number == u64::MAX || l2_number != self.tip_number + 1 {
            return Err(SyncError::NotSuccessorOfTip);
        }
        self.last_synced = header;
        self.tip_number = l2_number;
        Ok(())
    }

    /// The number of the block to produce next, if there is one above the
    /// tip.
    pub fn next_block_number(&self) -> (r: Option<u64>)
        ensures
            r == if self.tip_number < u64::MAX {
                Some((self.tip_number + 1) as u64)
            } else {
                None
            },
    {
        if self.tip_number < u64::MAX {
            Some(self.tip_number + 1)
        } else {
            None
        }
    }

    /// Reads the serialized layer-2 block out of a rollup transaction of
    /// this chain.
    pub fn parse_l2block(&self, type_hashes: &Vec<Option<[u8; 32]>>, witnesses: &Vec<Vec<u8>>) -> (r:
        Result<Vec<u8>, ParseError>)
        ensures
            parsed_view(r) == l2block_bytes(
                type_hashes@,
                witnesses_view(witnesses@),
                self.rollup_id,
            ),
    {
        parse_l2block(type_hashes, witnesses, &self.rollup_id)
    }
}

/// True if `i` is the place of the first output whose type script has the
/// hash `rollup_id`.
pub open spec fn is_rollup_cell(type_hashes: Seq<Option<[u8; 32]>>, rollup_id: [u8; 32], i: int) -> bool {
    &&& 0 <= i < type_hashes.len()
    &&& type_hashes[i] == Some(rollup_id)
    &&& forall|j: int| 0 <= j < i ==> type_hashes[j] != Some(rollup_id)
}

/// The place of the rollup's cell among the outputs of a transaction: the
/// first output whose type script has the hash `rollup_id`. `type_hashes`
/// holds, for each output, the hash of its type script, if it has one.
pub fn find_rollup_cell(type_hashes: &Vec<Option<[u8; 32]>>, rollup_id: &[u8; 32]) -> (r: Option<
    usize,
>)
    ensures
        match r {
            Some(i) => is_rollup_cell(type_hashes@, *rollup_id, i as int),
            None => forall|j: int|
                0 <= j < type_hashes@.len() ==> type_hashes@[j] != Some(*rollup_id),
        },
{
    let mut i: usize = 0;
    while i < type_hashes.len()
        invariant
            i <= type_hashes@.len(),
            forall|j: int| 0 <= j < i ==> type_hashes@[j] != Some(*rollup_id),
        decreases type_hashes@.len() - i,
    {
        let found = match &type_hashes[i] {
            Some(hash) => hash_eq(hash, rollup_id),
            None => false,
        };
        if found {
            return Some(i);
        }
        i = i + 1;
    }
    None
}

/// True if the bytes are a well-formed witness of layer 1: the serialized
/// table with the fields `lock`, `input_type` and `output_type`, as
/// `WitnessArgsReader::verify` of ckb-types accepts it when no further field
/// is allowed.
pub uninterp spec fn is_witness_args(witness: Seq<u8>) -> bool;

/// The number that the four bytes from `at` on hold, lowest byte first.
pub open spec fn le_number(bytes: Seq<u8>, at: int) -> int {
    bytes[at] + bytes[at + 1] * 0x100 + bytes[at + 2] * 0x1_0000 + bytes[at + 3] * 0x100_0000
}

/// The content of the `output_type` field of a well-formed witness. The
/// field is the last of the three: it starts where the number at bytes 12
/// to 15 of the witness says and runs to the end of the witness. An empty
/// field stands for no output type; else the field is four bytes of length
/// and then the content.
pub open spec fn witness_args_output_type(witness: Seq<u8>) -> Option<Seq<u8>> {
    let start = le_number(witness, 12);
    if start == witness.len() {
        None
    } else {
        Some(witness.subrange(start + 4, witness.len() as int))
    }
}

/// `WitnessArgsReader::verify(witness, false)` of ckb-types: whether the
/// bytes are a well-formed witness with exactly the three fields. The result
/// is a function of the bytes alone; the contract gives it a name and claims
/// nothing more.
#[verifier::external_body]
fn verify_witness_args(witness: &[u8]) -> (r: bool)
    ensures
        r == is_witness_args(witness@),
{
    WitnessArgsReader::verify(witness, false).is_ok()
}

/// `WitnessArgs::output_type` of ckb-types on a witness that was verified,
/// with `BytesOpt::to_opt` and `Bytes::raw_data` to get at the content. The
/// accessor slices the witness from the offset stored at bytes 12 to 15 to
/// its end, so it is only called on verified bytes; `to_opt` gives nothing
/// for an empty slice, and `raw_data` leaves out the four bytes of length.
#[verifier::external_body]
fn read_output_type(witness: &[u8]) -> (r: Option<Vec<u8>>)
    requires
        is_witness_args(witness@),
    ensures
        (match r {
            Some(bytes) => Some(bytes@),
            None => None,
        }) == witness_args_output_type(witness@),
{
    match WitnessArgs::new_unchecked(Bytes::copy_from_slice(witness)).output_type().to_opt() {
        Some(bytes) => Some(bytes.raw_data().to_vec()),
        None => None,
    }
}

/// Why a layer-1 transaction gives no layer-2 block.
#[derive(Clone, Copy, Debug, PartialEq, Eq)]
pub enum ParseError {
    /// No output has the rollup's type script.
    NoRollupCell,
    /// The transaction has no witness at the place of the rollup's cell.
    NoWitness,
    /// The witness is not well formed.
    InvalidWitness,
    /// The witness has no output type.
    NoOutputType,
}

impl ParseError {
    /// What went wrong, in words.
    pub open spec fn message_spec(self) -> Seq<char> {
        match self {
            ParseError::NoRollupCell => "no rollup cell found"@,
            ParseError::NoWitness => "no witness"@,
            ParseError::InvalidWitness => "invalid witness"@,
            ParseError::NoOutputType => "output_type field is none"@,
        }
    }

    /// What went wrong, in words.
    pub fn message(&self) -> (r: String)
        ensures
            r@ == self.message_spec(),
    {
        match self {
            ParseError::NoRollupCell => String::from_str("no rollup cell found"),
            ParseError::NoWitness => String::from_str("no witness"),
            ParseError::InvalidWitness => String::from_str("invalid witness"),
            ParseError::NoOutputType => String::from_str("output_type field is none"),
        }
    }
}

/// What a witness gives once it is decoded: `decoded` is `None` where the
/// witness is not well formed, else its output type, which may be missing.
pub open spec fn output_type_or_error(decoded: Option<Option<Seq<u8>>>) -> Result<
    Seq<u8>,
    ParseError,
> {
    match decoded {
        None => Err(ParseError::InvalidWitness),
        Some(None) => Err(ParseError::NoOutputType),
        Some(Some(bytes)) => Ok(bytes),
    }
}

/// What a witness decodes to: `None` where it is not well formed, else its
/// output type, which may be missing.
pub open spec fn decoded_output_type(witness: Seq<u8>) -> Option<Option<Seq<u8>>> {
    if is_witness_args(witness) {
        Some(witness_args_output_type(witness))
    } else {
        None
    }
}

/// The serialized layer-2 block that a rollup transaction carries, or why it
/// carries none. `type_hashes` holds, for each output, the hash of its type
/// script, if it has one; `witnesses` holds the transaction's witnesses.
pub open spec fn l2block_bytes(
    type_hashes: Seq<Option<[u8; 32]>>,
    witnesses: Seq<Seq<u8>>,
    rollup_id: [u8; 32],
) -> Result<Seq<u8>, ParseError> {
    if !exists|i: int| is_rollup_cell(type_hashes, rollup_id, i) {
        Err(ParseError::NoRollupCell)
    } else {
        let i = choose|i: int| is_rollup_cell(type_hashes, rollup_id, i);
        if i >= witnesses.len() {
            Err(ParseError::NoWitness)
        } else {
            output_type_or_error(decoded_output_type(witnesses[i]))
        }
    }
}

/// The values of a list of byte strings.
pub open spec fn witnesses_view(witnesses: Seq<Vec<u8>>) -> Seq<Seq<u8>> {
    witnesses.map_values(|w: Vec<u8>| w@)
}

/// The value of a parse result.
pub open spec fn parsed_view(r: Result<Vec<u8>, ParseError>) -> Result<Seq<u8>, ParseError> {
    match r {
        Ok(bytes) => Ok(bytes@),
        Err(e) => Err(e),
    }
}

/// Decodes a witness: `None` where it is not well formed, else its output
/// type, which may be missing.
pub fn decode_output_type(witness: &Vec<u8>) -> (r: Option<Option<Vec<u8>>>)
    ensures
        (match r {
            None => None,
            Some(None) => Some(None),
            Some(Some(bytes)) => Some(Some(bytes@)),
        }) == decoded_output_type(witness@),
{
    if verify_witness_args(witness.as_slice()) {
        Some(read_output_type(witness.as_slice()))
    } else {
        None
    }
}

/// Takes the layer-2 block out of a decoded witness: an ill-formed witness
/// and a witness without output type are refused.
pub fn l2block_from(decoded: Option<Option<Vec<u8>>>) -> (r: Result<Vec<u8>, ParseError>)
    ensures
        parsed_view(r) == output_type_or_error(
            match decoded {
                None => None,
                Some(None) => Some(None),
                Some(Some(bytes)) => Some(Some(bytes@)),
            },
        ),
{
    match decoded {
        None => Err(ParseError::InvalidWitness),
        Some(None) => Err(ParseError::NoOutputType),
        Some(Some(bytes)) => Ok(bytes),
    }
}

/// Reads the serialized layer-2 block out of a rollup transaction: finds the
/// rollup's cell among the outputs, takes the witness at the same place, and
/// returns the witness's output type. Whether the bytes are a layer-2 block
/// is for the caller to check.
pub fn parse_l2block(
    type_hashes: &Vec<Option<[u8; 32]>>,
    witnesses: &Vec<Vec<u8>>,
    rollup_id: &[u8; 32],
) -> (r: Result<Vec<u8>, ParseError>)
    ensures
        parsed_view(r) == l2block_bytes(type_hashes@, witnesses_view(witnesses@), *rollup_id),
{
    let i: usize = match find_rollup_cell(type_hashes, rollup_id) {
        Some(i) => i,
        None => {
            assert forall|j: int| !is_rollup_cell(type_hashes@, *rollup_id, j) by {}
            return Err(ParseError::NoRollupCell);
        },
    };
    proof {
        let chosen = choose|j: int| is_rollup_cell(type_hashes@, *rollup_id, j);
        assert(is_rollup_cell(type_hashes@, *rollup_id, i as int));
        if chosen < i {
            assert(type_hashes@[chosen] != Some(*rollup_id));
        }
        if i < chosen {
            assert(type_hashes@[i as int] != Some(*rollup_id));
        }
    }
    if i >= witnesses.len() {
        return Err(ParseError::NoWitness);
    }
    assert(witnesses_view(witnesses@)[i as int] == witnesses@[i as int]@);
    l2block_from(decode_output_type(&witnesses[i]))
}

} // verus!
