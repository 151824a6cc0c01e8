//! Decomposition of a raw block into keyed header, transaction, output and input entities.
use vstd::prelude::*;

use crate::address::{address_of, derive_address};
use crate::model::{
    Address, Block, BlockHash, BlockHeader, BlockHeight, BlockTimestamp, ExplorerError,
    ScriptHash, TempInputRef, Transaction, TxHash, TxPointer, Utxo, UtxoPointer,
};
use crate::raw_block::{BtcBlock, RawBlock, RawTransaction, RawTxIn, RawTxOut};

verus! {

/// Largest number of children that a 16-bit pointer index can address.
pub const MAX_CHILDREN: usize = 65536;

pub open spec fn tx_weight(tx: RawTransaction) -> int {
    (tx.input@.len() + tx.output@.len()) as int
}

/// Inputs plus outputs over the first `n` transactions.
pub open spec fn weight_upto(txs: Seq<RawTransaction>, n: int) -> int
    decreases n,
{
    if n <= 0 {
        0
    } else {
        weight_upto(txs, n - 1) + tx_weight(txs[n - 1])
    }
}

pub open spec fn raw_weight(txs: Seq<RawTransaction>) -> int {
    weight_upto(txs, txs.len() as int)
}

pub open spec fn tx_fits(tx: RawTransaction) -> bool {
    tx.input@.len() <= MAX_CHILDREN && tx.output@.len() <= MAX_CHILDREN
}

/// Every transaction, output and input of the block has a 16-bit index, and its
/// weight fits in 32 bits.
pub open spec fn fits_keys(b: RawBlock) -> bool {
    &&& b.txdata@.len() <= MAX_CHILDREN
    &&& forall|i: int| 0 <= i < b.txdata@.len() ==> #[trigger] tx_fits(b.txdata@[i])
    &&& raw_weight(b.txdata@) <= u32::MAX
}

pub open spec fn temp_ref_of(i: RawTxIn) -> TempInputRef {
    TempInputRef { tx_hash: TxHash(i.prev_txid), index: i.vout }
}

/// `u` is the output at index `j` of the transaction at `tx`, decomposed from `o`.
pub open spec fn utxo_decomposed(u: Utxo, tx: TxPointer, j: int, o: RawTxOut) -> bool {
    &&& u.id == UtxoPointer { parent: tx, index: j as u16 }
    &&& u.amount == o.value
    &&& u.script_hash.0@ == o.script_pubkey@
    &&& u.address.0@ == address_of(o.script_pubkey@)
}

pub open spec fn utxos_decomposed(us: Seq<Utxo>, tx: TxPointer, outs: Seq<RawTxOut>) -> bool {
    &&& us.len() == outs.len()
    &&& forall|j: int| 0 <= j < outs.len() ==> #[trigger] utxo_decomposed(us[j], tx, j, outs[j])
}

pub open spec fn temps_decomposed(ts: Seq<TempInputRef>, ins: Seq<RawTxIn>) -> bool {
    &&& ts.len() == ins.len()
    &&& forall|k: int| 0 <= k < ins.len() ==> #[trigger] ts[k] == temp_ref_of(ins[k])
}

/// `t` is the transaction at index `i` of the block at height `h`, decomposed from `tx`:
/// its outputs keyed under it in order, its inputs unresolved.
pub open spec fn tx_decomposed(t: Transaction, h: u32, i: int, tx: RawTransaction) -> bool {
    &&& t.id == TxPointer { parent: BlockHeight(h), index: i as u16 }
    &&& t.hash == TxHash(tx.txid)
    &&& utxos_decomposed(t.utxos@, t.id, tx.output@)
    &&& t.inputs@.len() == 0
    &&& temps_decomposed(t.transient_inputs@, tx.input@)
}

pub open spec fn header_of(h: u32, raw: RawBlock) -> BlockHeader {
    BlockHeader {
        id: BlockHeight(h),
        hash: BlockHash(raw.header.hash),
        prev_hash: BlockHash(raw.header.prev_hash),
        timestamp: BlockTimestamp(raw.header.time),
    }
}

/// `b` is the decomposition of `raw` at height `h`: transactions keyed 0..n-1 in
/// order, and weight the number of inputs plus outputs.
pub open spec fn block_decomposed(b: Block, h: u32, raw: RawBlock) -> bool {
    &&& b.id == BlockHeight(h)
    &&& b.header == header_of(h, raw)
    &&& b.transactions@.len() == raw.txdata@.len()
    &&& forall|i: int|
        0 <= i < raw.txdata@.len() ==> #[trigger] tx_decomposed(
            b.transactions@[i],
            h,
            i,
            raw.txdata@[i],
        )
    &&& b.weight == raw_weight(raw.txdata@)
}

proof fn lemma_weight_monotone(txs: Seq<RawTransaction>, a: int, b: int)
    requires
        0 <= a <= b,
    ensures
        weight_upto(txs, a) <= weight_upto(txs, b),
    decreases b - a,
{
    if a < b {
        lemma_weight_monotone(txs, a, b - 1);
    }
}

/// In a decomposed block no two transactions share a pointer, and within a
/// transaction no two outputs do.
pub proof fn lemma_decomposed_keys_unique(b: Block, h: u32, raw: RawBlock)
    requires
        fits_keys(raw),
        block_decomposed(b, h, raw),
    ensures
        forall|i: int, j: int|
            #![trigger b.transactions@[i].id, b.transactions@[j].id]
            0 <= i < j < b.transactions@.len() ==> b.transactions@[i].id != b.transactions@[j].id,
        forall|i: int, j: int, k: int|
            #![trigger b.transactions@[i].utxos@[j].id, b.transactions@[i].utxos@[k].id]
            0 <= i < b.transactions@.len() && 0 <= j < k < b.transactions@[i].utxos@.len()
                ==> b.transactions@[i].utxos@[j].id != b.transactions@[i].utxos@[k].id,
{
    assert forall|i: int, j: int|
        #![trigger b.transactions@[i].id, b.transactions@[j].id]
        0 <= i < j < b.transactions@.len() implies b.transactions@[i].id
        != b.transactions@[j].id by {
        assert(tx_decomposed(b.transactions@[i], h, i, raw.txdata@[i]));
        assert(tx_decomposed(b.transactions@[j], h, j, raw.txdata@[j]));
    }
    assert forall|i: int, j: int, k: int|
        #![trigger b.transactions@[i].utxos@[j].id, b.transactions@[i].utxos@[k].id]
        0 <= i < b.transactions@.len() && 0 <= j < k < b.transactions@[i].utxos@.len()
        implies b.transactions@[i].utxos@[j].id != b.transactions@[i].utxos@[k].id by {
        let t = b.transactions@[i];
        assert(tx_decomposed(t, h, i, raw.txdata@[i]));
        assert(tx_fits(raw.txdata@[i]));
        assert(utxo_decomposed(t.utxos@[j], t.id, j, raw.txdata@[i].output@[j]));
        assert(utxo_decomposed(t.utxos@[k], t.id, k, raw.txdata@[i].output@[k]));
    }
}

pub struct BtcBlockProcessor {}

impl BtcBlockProcessor {
    pub fn process_inputs(&self, ins: &Vec<RawTxIn>) -> (r: Vec<TempInputRef>)
        ensures
            temps_decomposed(r@, ins@),
    {
        let mut r: Vec<TempInputRef> = Vec::with_capacity(ins.len());
        let mut k: usize = 0;
        while k < ins.len()
            invariant
                k <= ins@.len(),
                r@.len() == k,
                forall|m: int| 0 <= m < k ==> #[trigger] r@[m] == temp_ref_of(ins@[m]),
            decreases ins@.len() - k,
        {
            let input = ins[k];
            r.push(TempInputRef { tx_hash: TxHash(input.prev_txid), index: input.vout });
            k += 1;
        }
        r
    }

    /// Returns the number of outputs and the outputs keyed under `tx_pointer`.
    pub fn process_outputs(&self, outs: &Vec<RawTxOut>, tx_pointer: TxPointer) -> (r: (
        usize,
        Vec<Utxo>,
    ))
        requires
            outs@.len() <= MAX_CHILDREN,
        ensures
            r.0 == outs@.len(),
            utxos_decomposed(r.1@, tx_pointer, outs@),
    {
        let mut result_outs: Vec<Utxo> = Vec::with_capacity(outs.len());
        let mut j: usize = 0;
        while j < outs.len()
            invariant
                j <= outs@.len() <= MAX_CHILDREN,
                result_outs@.len() == j,
                forall|m: int|
                    0 <= m < j ==> #[trigger] utxo_decomposed(
                        result_outs@[m],
                        tx_pointer,
                        m,
                        outs@[m],
                    ),
            decreases outs@.len() - j,
        {
            let out = &outs[j];
            let script = out.script_pubkey.clone();
            assert(script@ =~= out.script_pubkey@);
            let address = derive_address(&out.script_pubkey);
            result_outs.push(
                Utxo {
                    id: UtxoPointer::from_parent(tx_pointer, j as u16),
                    amount: out.value,
                    script_hash: ScriptHash(script),
                    address: Address(address),
                },
            );
            j += 1;
        }
        (result_outs.len(), result_outs)
    }

    pub fn process_tx(&self, height: BlockHeight, tx_index: u16, tx: &RawTransaction) -> (r:
        Transaction)
        requires
            tx.output@.len() <= MAX_CHILDREN,
        ensures
            tx_decomposed(r, height.0, tx_index as int, *tx),
    {
        let tx_pointer = TxPointer::from_parent(height, tx_index);
        let (_, outputs) = self.process_outputs(&tx.output, tx_pointer);
        Transaction {
            id: tx_pointer,
            hash: TxHash(tx.txid),
            utxos: outputs,
            inputs: Vec::new(),
            transient_inputs: self.process_inputs(&tx.input),
        }
    }

    /// Decomposes a raw block; fails only on a block whose keys or weight do not fit.
    pub fn process_block(&self, block: &BtcBlock) -> (r: Result<Block, ExplorerError>)
        ensures
            match r {
                Ok(b) => fits_keys(block.underlying) && block_decomposed(
                    b,
                    block.height.0,
                    block.underlying,
                ),
                Err(ExplorerError::BlockTooLarge(h)) => !fits_keys(block.underlying) && h
                    == block.height.0,
                Err(_) => false,
            },
    {
        let h = block.height.0;
        let raw = &block.underlying;
        if raw.txdata.len() > MAX_CHILDREN {
            return Err(ExplorerError::BlockTooLarge(h));
        }
        let header = BlockHeader {
            id: block.height,
            timestamp: BlockTimestamp(raw.header.time),
            hash: BlockHash(raw.header.hash),
            prev_hash: BlockHash(raw.header.prev_hash),
        };
        let mut block_weight: u64 = 0;
        let mut transactions: Vec<Transaction> = Vec::with_capacity(raw.txdata.len());
        let mut i: usize = 0;
        while i < raw.txdata.len()
            invariant
                *raw == block.underlying,
                h == block.height.0,
                i <= raw.txdata@.len() <= MAX_CHILDREN,
                block_weight == weight_upto(raw.txdata@, i as int),
                block_weight <= u32::MAX,
                transactions@.len() == i,
                forall|m: int| 0 <= m < i ==> #[trigger] tx_fits(raw.txdata@[m]),
                forall|m: int|
                    0 <= m < i ==> #[trigger] tx_decomposed(
                        transactions@[m],
                        h,
                        m,
                        raw.txdata@[m],
                    ),
            decreases raw.txdata@.len() - i,
        {
            let tx = &raw.txdata[i];
            if tx.input.len() > MAX_CHILDREN || tx.output.len() > MAX_CHILDREN {
                assert(!tx_fits(raw.txdata@[i as int]));
                return Err(ExplorerError::BlockTooLarge(h));
            }
            block_weight = block_weight + tx.input.len() as u64 + tx.output.len() as u64;
            if block_weight > u32::MAX as u64 {
                proof {
                    assert(block_weight == weight_upto(raw.txdata@, i + 1));
                    lemma_weight_monotone(raw.txdata@, i + 1, raw.txdata@.len() as int);
                }
                return Err(ExplorerError::BlockTooLarge(h));
            }
            let t = self.process_tx(block.height, i as u16, tx);
            assert((i as u16) as int == i);
            assert(tx_decomposed(t, h, i as int, raw.txdata@[i as int]));
            transactions.push(t);
            i += 1;
        }
        Ok(Block { id: block.height, header, transactions, weight: block_weight as u32 })
    }
}

} // verus!
