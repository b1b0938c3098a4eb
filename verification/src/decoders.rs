//! Block and transaction decoders: a block payload is an 80-byte header
//! followed by a stream of transactions, each with one-byte-counted input
//! and output lists and one-byte-length-prefixed scripts.

use vstd::prelude::*;

use crate::serialisers::{sha256d_of, sha256};
use crate::structures::{BlockData, SpecBlock, SpecTransaction, SpecTxInput, SpecTxOutput,
    Transaction, TransactionInput, TransactionOutput, WireError};
use crate::utils::{read_bytes, read_u32, read_u64};

verus! {

/// Copies a 32-byte slice into a fixed array.
fn bytes_to_array32(v: &[u8]) -> (r: [u8; 32])
    requires
        v@.len() == 32,
    ensures
        r@ == v@,
{
    let mut a: [u8; 32] = [0;32];
    let mut i: usize = 0;
    while i < 32
        invariant
            0 <= i <= 32,
            v@.len() == 32,
            forall|j: int| 0 <= j < i ==> a@[j] == v@[j],
        decreases 32 - i,
    {
        a[i] = v[i];
        i = i + 1;
    }
    proof {
        assert(a@ =~= v@);
    }
    a
}

/// Parses one transaction input at `pos`: a 32-byte previous-transaction
/// hash, a little-endian output index, a one-byte script length, the script,
/// and a little-endian sequence number.  `None` when any field runs past the
/// end of `data`.
pub open spec fn spec_parse_tx_input(data: Seq<u8>, pos: int) -> Option<(SpecTxInput, int)> {
    if 0 <= pos && pos + 37 <= data.len() {
        let slen = data[pos + 36] as int;
        if pos + 41 + slen <= data.len() {
            Some(
                (
                    SpecTxInput {
                        prev_tx_hash: data.subrange(pos, pos + 32),
                        prev_output_index: vstd::bytes::spec_u32_from_le_bytes(
                            data.subrange(pos + 32, pos + 36),
                        ),
                        script_sig: data.subrange(pos + 37, pos + 37 + slen),
                        sequence: vstd::bytes::spec_u32_from_le_bytes(
                            data.subrange(pos + 37 + slen, pos + 41 + slen),
                        ),
                    },
                    pos + 41 + slen,
                ),
            )
        } else {
            None
        }
    } else {
        None
    }
}

/// Parses one transaction output at `pos`: a little-endian 8-byte value, a
/// one-byte script length, and the script.
pub open spec fn spec_parse_tx_output(data: Seq<u8>, pos: int) -> Option<(SpecTxOutput, int)> {
    if 0 <= pos && pos + 9 <= data.len() {
        let slen = data[pos + 8] as int;
        if pos + 9 + slen <= data.len() {
            Some(
                (
                    SpecTxOutput {
                        value: vstd::bytes::spec_u64_from_le_bytes(data.subrange(pos, pos + 8)),
                        script_pub_key: data.subrange(pos + 9, pos + 9 + slen),
                    },
                    pos + 9 + slen,
                ),
            )
        } else {
            None
        }
    } else {
        None
    }
}

/// Parses exactly `n` inputs starting at `pos`.
pub open spec fn spec_parse_tx_inputs(data: Seq<u8>, pos: int, n: nat) -> Option<
    (Seq<SpecTxInput>, int),
>
    decreases n,
{
    if n == 0 {
        Some((Seq::empty(), pos))
    } else {
        match spec_parse_tx_input(data, pos) {
            Some((x, p2)) => match spec_parse_tx_inputs(data, p2, (n - 1) as nat) {
                Some((rest, p3)) => Some((seq![x] + rest, p3)),
                None => None,
            },
            None => None,
        }
    }
}

/// Parses exactly `n` outputs starting at `pos`.
pub open spec fn spec_parse_tx_outputs(data: Seq<u8>, pos: int, n: nat) -> Option<
    (Seq<SpecTxOutput>, int),
>
    decreases n,
{
    if n == 0 {
        Some((Seq::empty(), pos))
    } else {
        match spec_parse_tx_output(data, pos) {
            Some((x, p2)) => match spec_parse_tx_outputs(data, p2, (n - 1) as nat) {
                Some((rest, p3)) => Some((seq![x] + rest, p3)),
                None => None,
            },
            None => None,
        }
    }
}

/// A successful input-list parse stays inside `data`, never moves the
/// cursor backwards, and yields exactly `n` inputs.
pub proof fn lemma_parse_tx_inputs_bounds(data: Seq<u8>, pos: int, n: nat)
    requires
        pos <= data.len(),
    ensures
        spec_parse_tx_inputs(data, pos, n) matches Some((s, p2)) ==> pos <= p2 <= data.len()
            && s.len() == n,
    decreases n,
{
    if n > 0 {
        match spec_parse_tx_input(data, pos) {
            Some((x, p2)) => {
                lemma_parse_tx_inputs_bounds(data, p2, (n - 1) as nat);
            },
            None => {},
        }
    }
}

/// A successful output-list parse stays inside `data`, never moves the
/// cursor backwards, and yields exactly `n` outputs.
pub proof fn lemma_parse_tx_outputs_bounds(data: Seq<u8>, pos: int, n: nat)
    requires
        pos <= data.len(),
    ensures
        spec_parse_tx_outputs(data, pos, n) matches Some((s, p2)) ==> pos <= p2 <= data.len()
            && s.len() == n,
    decreases n,
{
    if n > 0 {
        match spec_parse_tx_output(data, pos) {
            Some((x, p2)) => {
                lemma_parse_tx_outputs_bounds(data, p2, (n - 1) as nat);
            },
            None => {},
        }
    }
}

/// Parses one transaction at `pos`: version, one-byte input count, the
/// inputs, one-byte output count, the outputs, locktime.
pub open spec fn spec_parse_transaction(data: Seq<u8>, pos: int) -> Option<
    (SpecTransaction, int),
> {
    if 0 <= pos && pos + 5 <= data.len() {
        match spec_parse_tx_inputs(data, pos + 5, data[pos + 4] as nat) {
            Some((ins, p2)) => if 0 <= p2 && p2 + 1 <= data.len() {
                match spec_parse_tx_outputs(data, p2 + 1, data[p2] as nat) {
                    Some((outs, p3)) => if p3 + 4 <= data.len() {
                        Some(
                            (
                                SpecTransaction {
                                    version: vstd::bytes::spec_u32_from_le_bytes(
                                        data.subrange(pos, pos + 4),
                                    ),
                                    inputs: ins,
                                    outputs: outs,
                                    locktime: vstd::bytes::spec_u32_from_le_bytes(
                                        data.subrange(p3, p3 + 4),
                                    ),
                                },
                                p3 + 4,
                            ),
                        )
                    } else {
                        None
                    },
                    None => None,
                }
            } else {
                None
            },
            None => None,
        }
    } else {
        None
    }
}

/// A successful transaction parse consumes at least ten bytes and stays
/// inside `data`.
pub proof fn lemma_parse_transaction_bounds(data: Seq<u8>, pos: int)
    ensures
        spec_parse_transaction(data, pos) matches Some((t, p2)) ==> pos + 10 <= p2 <= data.len(),
{
    if 0 <= pos && pos + 5 <= data.len() {
        lemma_parse_tx_inputs_bounds(data, pos + 5, data[pos + 4] as nat);
        match spec_parse_tx_inputs(data, pos + 5, data[pos + 4] as nat) {
            Some((ins, p2)) => {
                if 0 <= p2 && p2 + 1 <= data.len() {
                    lemma_parse_tx_outputs_bounds(data, p2 + 1, data[p2] as nat);
                }
            },
            None => {},
        }
    }
}

/// Parses transactions back to back from `pos` until `data` is exhausted.
/// `None` when any transaction runs past the end.
pub open spec fn spec_parse_tx_stream(data: Seq<u8>, pos: int) -> Option<Seq<SpecTransaction>>
    decreases data.len() - pos,
    when 0 <= pos <= data.len()
    via spec_parse_tx_stream_decreases
{
    if pos == data.len() {
        Some(Seq::empty())
    } else {
        match spec_parse_transaction(data, pos) {
            Some((tx, p2)) => match spec_parse_tx_stream(data, p2) {
                Some(rest) => Some(seq![tx] + rest),
                None => None,
            },
            None => None,
        }
    }
}

#[via_fn]
proof fn spec_parse_tx_stream_decreases(data: Seq<u8>, pos: int) {
    lemma_parse_transaction_bounds(data, pos);
}

/// Prefixes a partial parse's result with the inputs already taken.
spec fn spec_join_inputs(prefix: Seq<SpecTxInput>, r: Option<(Seq<SpecTxInput>, int)>) -> Option<
    (Seq<SpecTxInput>, int),
> {
    match r {
        Some((rest, p)) => Some((prefix + rest, p)),
        None => None,
    }
}

/// Prefixes a partial parse's result with the outputs already taken.
spec fn spec_join_outputs(prefix: Seq<SpecTxOutput>, r: Option<(Seq<SpecTxOutput>, int)>) -> Option<
    (Seq<SpecTxOutput>, int),
> {
    match r {
        Some((rest, p)) => Some((prefix + rest, p)),
        None => None,
    }
}

/// Decodes one transaction at `*start`, advancing the cursor past it.
/// Any field running past the end of `data` fails with
/// `TruncatedTransaction`.
pub fn parse_transaction(data: &[u8], start: &mut usize) -> (r: Result<Transaction, WireError>)
    ensures
        r is Ok <==> spec_parse_transaction(data@, *old(start) as int) is Some,
        r matches Ok(t) ==> spec_parse_transaction(data@, *old(start) as int) matches Some((m, p2))
            && t@ == m && *final(start) == p2,
        r is Err ==> r == Err::<Transaction, WireError>(WireError::TruncatedTransaction),
{
    let ghost pos0 = *start as int;

    let version = match read_u32(data, start) {
        Ok(v) => v,
        Err(_) => {
            proof {
                assert(spec_parse_transaction(data@, pos0) is None);
            }
            return Err(WireError::TruncatedTransaction);
        },
    };
    if *start >= data.len() {
        proof {
            assert(spec_parse_transaction(data@, pos0) is None);
        }
        return Err(WireError::TruncatedTransaction);
    }
    let in_count = data[*start];
    *start = *start + 1;
    proof {
        assert(in_count == data@[pos0 + 4]);
    }

    let ghost n_in = in_count as nat;
    let ghost inpos = *start as int;
    let mut inputs: Vec<TransactionInput> = Vec::new();
    let mut i: usize = 0;
    proof {
        assert(inputs@.map(|k: int, e: TransactionInput| e@) =~= Seq::<SpecTxInput>::empty());
        assert(spec_parse_tx_inputs(data@, inpos, n_in) == spec_join_inputs(
            inputs@.map(|k: int, e: TransactionInput| e@),
            spec_parse_tx_inputs(data@, inpos, n_in),
        ));
    }
    while i < in_count as usize
        invariant
            0 <= i <= in_count as usize,
            pos0 == *old(start) as int,
            0 <= pos0,
            n_in == in_count as nat,
            inpos == pos0 + 5,
            pos0 + 5 <= data@.len(),
            in_count == data@[pos0 + 4],
            *start <= data@.len(),
            inputs@.len() == i,
            spec_parse_tx_inputs(data@, inpos, n_in) == spec_join_inputs(
                inputs@.map(|k: int, e: TransactionInput| e@),
                spec_parse_tx_inputs(data@, *start as int, (n_in - i) as nat),
            ),
        decreases in_count as usize - i,
    {
        let ghost cur = *start as int;
        let ghost k = (n_in - i) as nat;

        let hash_v = match read_bytes(data, start, 32) {
            Ok(v) => v,
            Err(_) => {
                proof {
                    assert(spec_parse_tx_input(data@, cur) is None);
                    assert(spec_parse_tx_inputs(data@, cur, k) is None);
                    assert(spec_parse_transaction(data@, pos0) is None);
                }
                return Err(WireError::TruncatedTransaction);
            },
        };
        let prev_output_index = match read_u32(data, start) {
            Ok(v) => v,
            Err(_) => {
                proof {
                    assert(spec_parse_tx_input(data@, cur) is None);
                    assert(spec_parse_tx_inputs(data@, cur, k) is None);
                    assert(spec_parse_transaction(data@, pos0) is None);
                }
                return Err(WireError::TruncatedTransaction);
            },
        };
        if *start >= data.len() {
            proof {
                assert(spec_parse_tx_input(data@, cur) is None);
                assert(spec_parse_tx_inputs(data@, cur, k) is None);
                assert(spec_parse_transaction(data@, pos0) is None);
            }
            return Err(WireError::TruncatedTransaction);
        }
        let script_length = data[*start] as usize;
        *start = *start + 1;
        let script_sig = match read_bytes(data, start, script_length) {
            Ok(v) => v,
            Err(_) => {
                proof {
                    assert(spec_parse_tx_input(data@, cur) is None);
                    assert(spec_parse_tx_inputs(data@, cur, k) is None);
                    assert(spec_parse_transaction(data@, pos0) is None);
                }
                return Err(WireError::TruncatedTransaction);
            },
        };
        let sequence = match read_u32(data, start) {
            Ok(v) => v,
            Err(_) => {
                proof {
                    assert(spec_parse_tx_input(data@, cur) is None);
                    assert(spec_parse_tx_inputs(data@, cur, k) is None);
                    assert(spec_parse_transaction(data@, pos0) is None);
                }
                return Err(WireError::TruncatedTransaction);
            },
        };
        let input = TransactionInput {
            prev_tx_hash: bytes_to_array32(hash_v.as_slice()),
            prev_output_index,
            script_sig,
            sequence,
        };
        let ghost pre = inputs@;
        proof {
            assert(spec_parse_tx_input(data@, cur) == Some((input@, *start as int)));
        }
        inputs.push(input);
        proof {
            let f = |k: int, e: TransactionInput| e@;
            assert(pre.map(f).len() == pre.len());
            assert(inputs@ == pre.push(input));
            assert forall|j: int| 0 <= j < inputs@.len() implies inputs@.map(f)[j]
                == #[trigger] pre.map(f).push(input@)[j] by {
            }
            assert(inputs@.map(f) =~= pre.map(f).push(input@));
            match spec_parse_tx_inputs(data@, *start as int, (k - 1) as nat) {
                Some((rest, p)) => {
                    assert(pre.map(f) + (seq![input@] + rest) =~= pre.map(f).push(input@) + rest);
                },
                None => {},
            }
        }
        i = i + 1;
    }
    proof {
        let f = |k: int, e: TransactionInput| e@;
        assert(inputs@.map(f) + Seq::<SpecTxInput>::empty() =~= inputs@.map(f));
        assert(spec_parse_tx_inputs(data@, inpos, n_in) == Some(
            (inputs@.map(f), *start as int),
        ));
    }

    let ghost ins_models = inputs@.map(|k: int, e: TransactionInput| e@);
    if *start >= data.len() {
        proof {
            assert(spec_parse_transaction(data@, pos0) is None);
        }
        return Err(WireError::TruncatedTransaction);
    }
    let out_count = data[*start];
    let ghost p2 = *start as int;
    *start = *start + 1;

    let ghost n_out = out_count as nat;
    let ghost outpos = *start as int;
    let mut outputs: Vec<TransactionOutput> = Vec::new();
    let mut j: usize = 0;
    proof {
        assert(outputs@.map(|k: int, e: TransactionOutput| e@) =~= Seq::<SpecTxOutput>::empty());
        assert(spec_parse_tx_outputs(data@, outpos, n_out) == spec_join_outputs(
            outputs@.map(|k: int, e: TransactionOutput| e@),
            spec_parse_tx_outputs(data@, outpos, n_out),
        ));
    }
    while j < out_count as usize
        invariant
            0 <= j <= out_count as usize,
            pos0 == *old(start) as int,
            n_out == out_count as nat,
            outpos == p2 + 1,
            0 <= pos0,
            pos0 + 5 <= data@.len(),
            in_count == data@[pos0 + 4],
            spec_parse_tx_inputs(data@, pos0 + 5, in_count as nat) == Some((ins_models, p2)),
            0 <= p2,
            p2 + 1 <= data@.len(),
            out_count == data@[p2],
            *start <= data@.len(),
            outputs@.len() == j,
            spec_parse_tx_outputs(data@, outpos, n_out) == spec_join_outputs(
                outputs@.map(|k: int, e: TransactionOutput| e@),
                spec_parse_tx_outputs(data@, *start as int, (n_out - j) as nat),
            ),
        decreases out_count as usize - j,
    {
        let ghost cur = *start as int;
        let ghost k = (n_out - j) as nat;

        let value = match read_u64(data, start) {
            Ok(v) => v,
            Err(_) => {
                proof {
                    assert(spec_parse_tx_output(data@, cur) is None);
                    assert(spec_parse_tx_outputs(data@, cur, k) is None);
                    assert(spec_parse_tx_outputs(data@, outpos, n_out) is None);
                    assert(spec_parse_transaction(data@, pos0) is None);
                }
                return Err(WireError::TruncatedTransaction);
            },
        };
        if *start >= data.len() {
            proof {
                assert(spec_parse_tx_output(data@, cur) is None);
                assert(spec_parse_tx_outputs(data@, cur, k) is None);
                assert(spec_parse_tx_outputs(data@, outpos, n_out) is None);
                assert(spec_parse_transaction(data@, pos0) is None);
            }
            return Err(WireError::TruncatedTransaction);
        }
        let script_length = data[*start] as usize;
        *start = *start + 1;
        let script_pub_key = match read_bytes(data, start, script_length) {
            Ok(v) => v,
            Err(_) => {
                proof {
                    assert(spec_parse_tx_output(data@, cur) is None);
                    assert(spec_parse_tx_outputs(data@, cur, k) is None);
                    assert(spec_parse_tx_outputs(data@, outpos, n_out) is None);
                    assert(spec_parse_transaction(data@, pos0) is None);
                }
                return Err(WireError::TruncatedTransaction);
            },
        };
        let output = TransactionOutput { value, script_pub_key };
        let ghost pre = outputs@;
        proof {
            assert(spec_parse_tx_output(data@, cur) == Some((output@, *start as int)));
        }
        outputs.push(output);
        proof {
            let f = |k: int, e: TransactionOutput| e@;
            assert(pre.map(f).len() == pre.len());
            assert(outputs@ == pre.push(output));
            assert forall|m: int| 0 <= m < outputs@.len() implies outputs@.map(f)[m]
                == #[trigger] pre.map(f).push(output@)[m] by {
            }
            assert(outputs@.map(f) =~= pre.map(f).push(output@));
            match spec_parse_tx_outputs(data@, *start as int, (k - 1) as nat) {
                Some((rest, p)) => {
                    assert(pre.map(f) + (seq![output@] + rest) =~= pre.map(f).push(output@)
                        + rest);
                },
                None => {},
            }
        }
        j = j + 1;
    }
    proof {
        let f = |k: int, e: TransactionOutput| e@;
        assert(outputs@.map(f) + Seq::<SpecTxOutput>::empty() =~= outputs@.map(f));
        assert(spec_parse_tx_outputs(data@, outpos, n_out) == Some(
            (outputs@.map(f), *start as int),
        ));
    }

    let locktime = match read_u32(data, start) {
        Ok(v) => v,
        Err(_) => {
            proof {
                assert(spec_parse_transaction(data@, pos0) is None);
            }
            return Err(WireError::TruncatedTransaction);
        },
    };

    let t = Transaction { version, inputs, outputs, locktime };
    proof {
        assert(spec_parse_transaction(data@, pos0) matches Some((m, p)) && t@ == m && p
            == *start as int);
    }
    Ok(t)
}

/// Prefixes a partial stream parse with the transactions already taken.
spec fn spec_join_txs(prefix: Seq<SpecTransaction>, r: Option<Seq<SpecTransaction>>) -> Option<
    Seq<SpecTransaction>,
> {
    match r {
        Some(rest) => Some(prefix + rest),
        None => None,
    }
}

/// What decoding a block payload yields: the six fixed-width header fields
/// of the first 80 bytes, the double-SHA256 hash of those bytes, and the
/// transaction stream that fills the rest.
pub open spec fn spec_parse_block(payload: Seq<u8>) -> Option<SpecBlock> {
    if payload.len() >= 80 {
        match spec_parse_tx_stream(payload, 80) {
            Some(txs) => Some(
                SpecBlock {
                    version: vstd::bytes::spec_u32_from_le_bytes(payload.subrange(0, 4)),
                    prev_block_hash: payload.subrange(4, 36),
                    merkle_root: payload.subrange(36, 68),
                    timestamp: vstd::bytes::spec_u32_from_le_bytes(payload.subrange(68, 72)),
                    bits: vstd::bytes::spec_u32_from_le_bytes(payload.subrange(72, 76)),
                    nonce: vstd::bytes::spec_u32_from_le_bytes(payload.subrange(76, 80)),
                    block_hash: sha256d_of(payload.subrange(0, 80)),
                    transactions: txs,
                },
            ),
            None => None,
        }
    } else {
        None
    }
}

/// Decodes a block payload into a `BlockData`: the header fields are read
/// from the first 80 bytes, the block hash is the double SHA-256 of those
/// bytes, and transactions are decoded until the payload is exhausted.  Any
/// decode failure discards the whole block with `TruncatedTransaction`.
pub fn handle_block(block: &[u8]) -> (r: Result<BlockData, WireError>)
    ensures
        r is Ok <==> spec_parse_block(block@) is Some,
        r matches Ok(b) ==> spec_parse_block(block@) matches Some(m) && b@ == m,
        r is Err ==> r == Err::<BlockData, WireError>(WireError::TruncatedTransaction),
{
    if block.len() < 80 {
        return Err(WireError::TruncatedTransaction);
    }
    let version = vstd::bytes::u32_from_le_bytes(vstd::slice::slice_subrange(block, 0, 4));
    let prev_block_hash = bytes_to_array32(vstd::slice::slice_subrange(block, 4, 36));
    let merkle_root = bytes_to_array32(vstd::slice::slice_subrange(block, 36, 68));
    let timestamp = vstd::bytes::u32_from_le_bytes(vstd::slice::slice_subrange(block, 68, 72));
    let bits = vstd::bytes::u32_from_le_bytes(vstd::slice::slice_subrange(block, 72, 76));
    let nonce = vstd::bytes::u32_from_le_bytes(vstd::slice::slice_subrange(block, 76, 80));

    let header = vstd::slice::slice_subrange(block, 0, 80);
    let first_hash = sha256(header);
    let block_hash = sha256(first_hash.as_slice());

    let mut transactions: Vec<Transaction> = Vec::new();
    let mut cursor: usize = 80;
    proof {
        assert(transactions@.map(|k: int, t: Transaction| t@) =~= Seq::<SpecTransaction>::empty());
        assert(spec_parse_tx_stream(block@, 80) == spec_join_txs(
            transactions@.map(|k: int, t: Transaction| t@),
            spec_parse_tx_stream(block@, 80),
        ));
    }
    while cursor < block.len()
        invariant
            80 <= cursor <= block@.len(),
            spec_parse_tx_stream(block@, 80) == spec_join_txs(
                transactions@.map(|k: int, t: Transaction| t@),
                spec_parse_tx_stream(block@, cursor as int),
            ),
        decreases block@.len() - cursor,
    {
        let ghost cur = cursor as int;
        match parse_transaction(block, &mut cursor) {
            Ok(t) => {
                proof {
                    lemma_parse_transaction_bounds(block@, cur);
                }
                let ghost pre = transactions@;
                transactions.push(t);
                proof {
                    let f = |k: int, t: Transaction| t@;
                    assert(pre.map(f).len() == pre.len());
                    assert(transactions@ == pre.push(t));
                    assert forall|m: int| 0 <= m < transactions@.len() implies transactions@.map(
                        f,
                    )[m] == #[trigger] pre.map(f).push(t@)[m] by {
                    }
                    assert(transactions@.map(f) =~= pre.map(f).push(t@));
                    match spec_parse_tx_stream(block@, cursor as int) {
                        Some(rest) => {
                            assert(pre.map(f) + (seq![t@] + rest) =~= pre.map(f).push(t@) + rest);
                        },
                        None => {},
                    }
                }
            },
            Err(_) => {
                proof {
                    assert(spec_parse_tx_stream(block@, cur) is None);
                    assert(spec_parse_block(block@) is None);
                }
                return Err(WireError::TruncatedTransaction);
            },
        }
    }
    proof {
        let f = |k: int, t: Transaction| t@;
        assert(spec_parse_tx_stream(block@, block@.len() as int) == Some(
            Seq::<SpecTransaction>::empty(),
        ));
        assert(transactions@.map(f) + Seq::<SpecTransaction>::empty() =~= transactions@.map(f));
        assert(spec_parse_tx_stream(block@, 80) == Some(transactions@.map(f)));
    }
    let b = BlockData {
        version,
        prev_block_hash,
        merkle_root,
        timestamp,
        bits,
        nonce,
        block_hash,
        transactions,
    };
    proof {
        assert(spec_parse_block(block@) matches Some(m) && b@ == m);
    }
    Ok(b)
}

} // verus!
