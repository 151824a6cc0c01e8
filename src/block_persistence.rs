//! The block store: resolves the inputs of each block against what is already
//! stored, keeps blocks ordered by height, and replaces blocks on a reorganisation.
use vstd::prelude::*;

use crate::model::{
    Block, BlockHeader, BlockHeight, ExplorerError, InputPointer, InputRef, TempInputRef,
    Transaction, TxPointer,
};

verus! {

/// The pointer that an input is bound to when no stored transaction has the id it
/// spends; coinbase inputs get it.
pub open spec fn sentinel() -> InputPointer {
    InputPointer { parent: TxPointer { parent: BlockHeight(0), index: 0 }, index: 0 }
}

/// The pointer of the first transaction from index `k` on whose id is `hash`.
pub open spec fn first_in_txs(txs: Seq<Transaction>, hash: Seq<u8>, k: int) -> Option<TxPointer>
    decreases txs.len() - k,
{
    if k < 0 || k >= txs.len() {
        None
    } else if txs[k].hash.0@ == hash {
        Some(txs[k].id)
    } else {
        first_in_txs(txs, hash, k + 1)
    }
}

/// The pointer of the first transaction whose id is `hash`, in the blocks from index `i` on.
pub open spec fn first_in_blocks(bs: Seq<Block>, hash: Seq<u8>, i: int) -> Option<TxPointer>
    decreases bs.len() - i,
{
    if i < 0 || i >= bs.len() {
        None
    } else {
        match first_in_txs(bs[i].transactions@, hash, 0) {
            Some(p) => Some(p),
            None => first_in_blocks(bs, hash, i + 1),
        }
    }
}

/// What an unresolved input is bound to in a store holding `bs`.
pub open spec fn resolved_pointer(bs: Seq<Block>, t: TempInputRef) -> InputPointer {
    match first_in_blocks(bs, t.tx_hash.0@, 0) {
        Some(p) => InputPointer { parent: p, index: t.index as u16 },
        None => sentinel(),
    }
}

/// `ins` is `prev` followed by one input for each of `ts`, bound against a store holding `bs`.
pub open spec fn inputs_resolved(
    ins: Seq<InputRef>,
    prev: Seq<InputRef>,
    ts: Seq<TempInputRef>,
    bs: Seq<Block>,
) -> bool {
    &&& ins.len() == prev.len() + ts.len()
    &&& ins.subrange(0, prev.len() as int) == prev
    &&& forall|k: int|
        0 <= k < ts.len() ==> #[trigger] ins[prev.len() + k].id == resolved_pointer(bs, ts[k])
}

/// `r` is `t` with its unresolved inputs, bound against a store holding `bs`, added
/// after the inputs it already had.
pub open spec fn tx_resolved(r: Transaction, t: Transaction, bs: Seq<Block>) -> bool {
    &&& r.id == t.id
    &&& r.hash == t.hash
    &&& r.utxos == t.utxos
    &&& r.transient_inputs == t.transient_inputs
    &&& inputs_resolved(r.inputs@, t.inputs@, t.transient_inputs@, bs)
}

/// `r` is `b` with the inputs of every transaction bound against a store holding `bs`.
pub open spec fn block_resolved(r: Block, b: Block, bs: Seq<Block>) -> bool {
    &&& r.id == b.id
    &&& r.header == b.header
    &&& r.weight == b.weight
    &&& r.transactions@.len() == b.transactions@.len()
    &&& forall|i: int|
        0 <= i < b.transactions@.len() ==> #[trigger] tx_resolved(
            r.transactions@[i],
            b.transactions@[i],
            bs,
        )
}

/// `r` is `t` without its unresolved inputs, which are never stored.
pub open spec fn tx_cleared(r: Transaction, t: Transaction) -> bool {
    &&& r.id == t.id
    &&& r.hash == t.hash
    &&& r.utxos == t.utxos
    &&& r.inputs == t.inputs
    &&& r.transient_inputs@.len() == 0
}

/// `r` is `t` as stored into a store holding `bs`: inputs bound, unresolved inputs dropped.
pub open spec fn tx_stored(r: Transaction, t: Transaction, bs: Seq<Block>) -> bool {
    &&& r.id == t.id
    &&& r.hash == t.hash
    &&& r.utxos == t.utxos
    &&& r.transient_inputs@.len() == 0
    &&& inputs_resolved(r.inputs@, t.inputs@, t.transient_inputs@, bs)
}

/// `r` is `b` as stored into a store holding `bs`: every transaction as `tx_stored`
/// says, and the weight, which is never stored, zero.
pub open spec fn block_stored(r: Block, b: Block, bs: Seq<Block>) -> bool {
    &&& r.id == b.id
    &&& r.header == b.header
    &&& r.weight == 0
    &&& r.transactions@.len() == b.transactions@.len()
    &&& forall|i: int|
        0 <= i < b.transactions@.len() ==> #[trigger] tx_stored(
            r.transactions@[i],
            b.transactions@[i],
            bs,
        )
}

/// Heights strictly ascend, so each height is held at most once.
pub open spec fn sorted(s: Seq<Block>) -> bool {
    forall|i: int, j: int| 0 <= i < j < s.len() ==> s[i].id.0 < s[j].id.0
}

/// Every block's header is keyed by the block's own height.
pub open spec fn headers_keyed(s: Seq<Block>) -> bool {
    forall|i: int| 0 <= i < s.len() ==> #[trigger] s[i].header.id == s[i].id
}

pub open spec fn has_height(s: Seq<Block>, h: u32) -> bool {
    exists|i: int| 0 <= i < s.len() && s[i].id.0 == h
}

/// A block at height `h` whose header hash is `hash` is stored.
pub open spec fn holds_block(s: Seq<Block>, h: u32, hash: Seq<u8>) -> bool {
    exists|i: int| 0 <= i < s.len() && s[i].id.0 == h && s[i].header.hash.0@ == hash
}

/// How a fetched block meets the store.
#[derive(Clone, Copy, Debug, PartialEq, Eq, Structural)]
pub enum StoreAction {
    /// No block of its height is stored.
    Store,
    /// The same block is already stored at its height.
    Skip,
    /// Another block is stored at its height.
    Replace,
}

/// Storing `b` into `s` succeeds and gives `t`: `b`, as stored against `s`, goes in
/// at its place by height.
pub open spec fn store_step(s: Seq<Block>, b: Block, t: Seq<Block>) -> bool {
    &&& b.header.id == b.id
    &&& !has_height(s, b.id.0)
    &&& sorted(t)
    &&& exists|p: int, r: Block| 0 <= p <= s.len() && block_stored(r, b, s) && t == s.insert(p, r)
}

/// Storing `b` into `s` is refused with `e`: its header is keyed by another height,
/// or a block of its height is already stored.
pub open spec fn store_refused(s: Seq<Block>, b: Block, e: ExplorerError) -> bool {
    if b.header.id != b.id {
        e == ExplorerError::HeaderMismatch(b.id.0)
    } else {
        has_height(s, b.id.0) && e == ExplorerError::DuplicateHeight(b.id.0)
    }
}

/// `states[0]`, ..., `states[k]` are the stores after each of the first `k` blocks of `bs`.
pub open spec fn store_chain(states: Seq<Seq<Block>>, bs: Seq<Block>, k: int) -> bool {
    &&& 0 <= k <= bs.len()
    &&& states.len() == k + 1
    &&& forall|j: int| 0 <= j < k ==> #[trigger] store_step(states[j], bs[j], states[j + 1])
}

/// Storing the blocks `bs` one after another into `s0` gave `s1` and `r`: all of them
/// went in, or the first one refused stopped it, after the ones before.
pub open spec fn batch_stored(s0: Seq<Block>, bs: Seq<Block>, s1: Seq<Block>, r: Result<(), ExplorerError>) -> bool {
    match r {
        Ok(_) => exists|states: Seq<Seq<Block>>|
            store_chain(states, bs, bs.len() as int) && states[0] == s0 && states.last() == s1,
        Err(e) => exists|states: Seq<Seq<Block>>, k: int|
            store_chain(states, bs, k) && k < bs.len() && states[0] == s0 && states[k] == s1
                && store_refused(s1, bs[k], e),
    }
}

pub open spec fn in_batch(bs: Seq<Block>, h: u32) -> bool {
    exists|j: int| 0 <= j < bs.len() && bs[j].id.0 == h
}

/// `t` is `s` without the blocks at the heights of `bs`.
pub open spec fn heights_deleted(s: Seq<Block>, bs: Seq<Block>, t: Seq<Block>) -> bool {
    &&& sorted(t)
    &&& forall|b: Block| #[trigger] t.contains(b) <==> s.contains(b) && !in_batch(bs, b.id.0)
}

pub open spec fn headers_with_hash(s: Seq<Block>, hash: Seq<u8>, n: int) -> Seq<BlockHeader>
    decreases n,
{
    if n <= 0 {
        Seq::empty()
    } else if s[n - 1].header.hash.0@ == hash {
        headers_with_hash(s, hash, n - 1).push(s[n - 1].header)
    } else {
        headers_with_hash(s, hash, n - 1)
    }
}

proof fn lemma_first_in_txs(txs: Seq<Transaction>, hash: Seq<u8>, k: int, m: int)
    requires
        0 <= k <= m <= txs.len(),
        forall|q: int| k <= q < m ==> #[trigger] txs[q].hash.0@ != hash,
    ensures
        m == txs.len() ==> first_in_txs(txs, hash, k) is None,
        m < txs.len() && txs[m].hash.0@ == hash ==> first_in_txs(txs, hash, k) == Some(txs[m].id),
    decreases m - k,
{
    if k < m {
        lemma_first_in_txs(txs, hash, k + 1, m);
    }
}

proof fn lemma_first_in_blocks(bs: Seq<Block>, hash: Seq<u8>, i: int, m: int)
    requires
        0 <= i <= m <= bs.len(),
        forall|q: int, k: int|
            i <= q < m && 0 <= k < bs[q].transactions@.len() ==> #[trigger] bs[q].transactions@[k].hash.0@
                != hash,
    ensures
        m == bs.len() ==> first_in_blocks(bs, hash, i) is None,
        m < bs.len() ==> first_in_blocks(bs, hash, i) == first_in_blocks(bs, hash, m),
    decreases m - i,
{
    if i < m {
        let txs = bs[i].transactions@;
        assert forall|q: int| 0 <= q < txs.len() implies #[trigger] txs[q].hash.0@ != hash by {
            assert(bs[i].transactions@[q].hash.0@ != hash);
        }
        lemma_first_in_txs(txs, hash, 0, txs.len() as int);
        lemma_first_in_blocks(bs, hash, i + 1, m);
    }
}

/// An input that spends output `t.index` of a transaction whose id is held by exactly
/// one stored transaction, the one at `bs[i].transactions[k]`, is bound to that
/// transaction's pointer and that output index.
pub proof fn lemma_resolves_to_unique_match(bs: Seq<Block>, t: TempInputRef, i: int, k: int)
    requires
        0 <= i < bs.len(),
        0 <= k < bs[i].transactions@.len(),
        bs[i].transactions@[k].hash.0@ == t.tx_hash.0@,
        forall|q: int, m: int|
            0 <= q < bs.len() && 0 <= m < bs[q].transactions@.len() && (q, m) != (i, k)
                ==> #[trigger] bs[q].transactions@[m].hash.0@ != t.tx_hash.0@,
    ensures
        resolved_pointer(bs, t) == (InputPointer {
            parent: bs[i].transactions@[k].id,
            index: t.index as u16,
        }),
{
    let hash = t.tx_hash.0@;
    lemma_first_in_blocks(bs, hash, 0, i);
    let txs = bs[i].transactions@;
    assert forall|q: int| 0 <= q < k implies #[trigger] txs[q].hash.0@ != hash by {
        assert(bs[i].transactions@[q].hash.0@ != hash);
    }
    lemma_first_in_txs(txs, hash, 0, k);
}

/// An input whose spent transaction id no stored transaction has is bound to the sentinel.
pub proof fn lemma_unknown_resolves_to_sentinel(bs: Seq<Block>, t: TempInputRef)
    requires
        forall|q: int, m: int|
            0 <= q < bs.len() && 0 <= m < bs[q].transactions@.len()
                ==> #[trigger] bs[q].transactions@[m].hash.0@ != t.tx_hash.0@,
    ensures
        resolved_pointer(bs, t) == sentinel(),
{
    lemma_first_in_blocks(bs, t.tx_hash.0@, 0, bs.len() as int);
}

/// No transaction of `s` has the id `u`.
pub open spec fn lacks_tx_hash(s: Seq<Block>, u: Seq<u8>) -> bool {
    forall|q: int, m: int|
        0 <= q < s.len() && 0 <= m < s[q].transactions@.len() ==> #[trigger] s[q].transactions@[m].hash.0@
            != u
}

proof fn lemma_step_lacks_hash(s: Seq<Block>, b: Block, t: Seq<Block>, u: Seq<u8>)
    requires
        store_step(s, b, t),
        lacks_tx_hash(s, u),
        lacks_tx_hash(seq![b], u),
    ensures
        lacks_tx_hash(t, u),
{
    let (p, r) = choose|p: int, r: Block| 0 <= p <= s.len() && block_stored(r, b, s) && t == s.insert(p, r);
    assert forall|q: int, m: int|
        0 <= q < t.len() && 0 <= m < t[q].transactions@.len() implies #[trigger] t[q].transactions@[m].hash.0@
        != u by {
        if q < p {
            assert(t[q] == s[q]);
        } else if q == p {
            assert(tx_stored(r.transactions@[m], b.transactions@[m], s));
            assert(seq![b][0] == b);
        } else {
            assert(t[q] == s[q - 1]);
        }
    }
}

proof fn lemma_chain_lacks_hash(states: Seq<Seq<Block>>, bs: Seq<Block>, n: int, u: Seq<u8>, m: int)
    requires
        store_chain(states, bs, n),
        0 <= m <= n,
        lacks_tx_hash(states[0], u),
        lacks_tx_hash(bs, u),
    ensures
        lacks_tx_hash(states[m], u),
    decreases m,
{
    if m > 0 {
        lemma_chain_lacks_hash(states, bs, n, u, m - 1);
        let v = m - 1;
        let b = bs[v];
        assert(store_step(states[v], bs[v], states[v + 1]));
        assert forall|q: int, x: int|
            0 <= q < 1 && 0 <= x < seq![b][q].transactions@.len() implies #[trigger] seq![b][q].transactions@[x].hash.0@
            != u by {
            assert(seq![b][q] == b);
            assert(bs[m - 1].transactions@[x].hash.0@ != u);
        }
        lemma_step_lacks_hash(states[m - 1], b, states[m], u);
    }
}

proof fn lemma_chain_keeps(states: Seq<Seq<Block>>, bs: Seq<Block>, n: int, r: Block, a: int, w: int)
    requires
        store_chain(states, bs, n),
        0 <= a <= w <= n,
        states[a].contains(r),
    ensures
        states[w].contains(r),
    decreases w - a,
{
    if a < w {
        lemma_chain_keeps(states, bs, n, r, a, w - 1);
        let v = w - 1;
        assert(store_step(states[v], bs[v], states[v + 1]));
        let (p2, r2) = choose|p2: int, r2: Block|
            0 <= p2 <= states[v].len() && block_stored(r2, bs[v], states[v]) && states[w] == states[v].insert(p2, r2);
        let q = choose|q: int| 0 <= q < states[v].len() && states[v][q] == r;
        if q < p2 {
            assert(states[w][q] == r);
        } else {
            assert(states[w][q + 1] == r);
        }
    }
}

/// An input of a stored batch whose spent transaction id is neither in the store
/// before the batch nor in the batch is stored bound to the sentinel.
pub proof fn lemma_batch_unknown_hash_binds_sentinel(
    s0: Seq<Block>,
    bs: Seq<Block>,
    s1: Seq<Block>,
    j: int,
    i: int,
    k: int,
)
    requires
        batch_stored(s0, bs, s1, Ok(())),
        0 <= j < bs.len(),
        0 <= i < bs[j].transactions@.len(),
        0 <= k < bs[j].transactions@[i].transient_inputs@.len(),
        lacks_tx_hash(s0, bs[j].transactions@[i].transient_inputs@[k].tx_hash.0@),
        lacks_tx_hash(bs, bs[j].transactions@[i].transient_inputs@[k].tx_hash.0@),
    ensures
        exists|q: int|
            0 <= q < s1.len() && s1[q].id == bs[j].id && (#[trigger] s1[q].transactions@[i]).inputs@[bs[j].transactions@[i].inputs@.len()
                + k].id == sentinel(),
{
    let t = bs[j].transactions@[i].transient_inputs@[k];
    let u = t.tx_hash.0@;
    let n = bs.len() as int;
    let states = choose|states: Seq<Seq<Block>>|
        store_chain(states, bs, n) && states[0] == s0 && states.last() == s1;
    lemma_chain_lacks_hash(states, bs, n, u, j);
    lemma_unknown_resolves_to_sentinel(states[j], t);
    assert(store_step(states[j], bs[j], states[j + 1]));
    let (p, r) = choose|p: int, r: Block|
        0 <= p <= states[j].len() && block_stored(r, bs[j], states[j]) && states[j + 1] == states[j].insert(p, r);
    assert(tx_stored(r.transactions@[i], bs[j].transactions@[i], states[j]));
    let base = bs[j].transactions@[i].inputs@.len();
    assert(r.transactions@[i].inputs@[base + k].id == sentinel());
    assert(states[j + 1][p] == r);
    assert(states[j + 1].contains(r));
    lemma_chain_keeps(states, bs, n, r, j + 1, n);
    assert(states[n] == s1);
    let q = choose|q: int| 0 <= q < s1.len() && s1[q] == r;
    assert(s1[q].transactions@[i] == r.transactions@[i]);
}

/// Once a block is stored its height is taken, so storing it again cannot succeed.
pub proof fn lemma_store_twice_rejected(s0: Seq<Block>, b: Block, s1: Seq<Block>)
    requires
        store_step(s0, b, s1),
    ensures
        has_height(s1, b.id.0),
        forall|s2: Seq<Block>| !store_step(s1, b, s2),
{
    let (p, r) = choose|p: int, r: Block|
        0 <= p <= s0.len() && block_stored(r, b, s0) && s1 == s0.insert(p, r);
    assert(s1[p].id.0 == b.id.0);
}

/// Replacing the block at a height leaves exactly one block there, the new one as
/// stored (inputs bound, nothing unpersisted kept), and otherwise only blocks that were stored before at other heights.
pub proof fn lemma_replace_leaves_one(old: Seq<Block>, b: Block, mid: Seq<Block>, new: Seq<Block>)
    requires
        heights_deleted(old, seq![b], mid),
        batch_stored(mid, seq![b], new, Ok(())),
    ensures
        exists|i: int|
            0 <= i < new.len() && new[i].id == b.id && block_stored(new[i], b, mid) && forall|j: int|
                0 <= j < new.len() && j != i ==> new[j].id.0 != b.id.0 && old.contains(
                    #[trigger] new[j],
                ),
{
    let states = choose|states: Seq<Seq<Block>>|
        store_chain(states, seq![b], 1) && states[0] == mid && states.last() == new;
    assert(store_step(states[0], seq![b][0], states[1]));
    let (p, r) = choose|p: int, r: Block|
        0 <= p <= mid.len() && block_stored(r, b, mid) && new == mid.insert(p, r);
    assert forall|j: int| 0 <= j < new.len() && j != p implies new[j].id.0 != b.id.0
        && old.contains(#[trigger] new[j]) by {
        let o = if j < p { j } else { j - 1 };
        assert(new[j] == mid[o]);
        assert(mid.contains(mid[o]));
        if j < p {
            assert(new[j].id.0 < new[p].id.0);
        } else {
            assert(new[p].id.0 < new[j].id.0);
        }
    }
    assert(new[p] == r);
}

/// Compares two 32-byte hashes.
pub fn same_hash(a: &[u8; 32], b: &[u8; 32]) -> (r: bool)
    ensures
        r == (a@ == b@),
{
    let mut i: usize = 0;
    while i < 32
        invariant
            i <= 32,
            forall|k: int| 0 <= k < i ==> a@[k] == b@[k],
        decreases 32 - i,
    {
        if a[i] != b[i] {
            return false;
        }
        i += 1;
    }
    assert(a@ =~= b@);
    true
}

pub struct BtcBlockPersistence {
    blocks: Vec<Block>,
}

impl View for BtcBlockPersistence {
    type V = Seq<Block>;

    closed spec fn view(&self) -> Seq<Block> {
        self.blocks@
    }
}

impl BtcBlockPersistence {
    pub open spec fn wf(&self) -> bool {
        sorted(self@) && headers_keyed(self@)
    }

    pub fn new() -> (r: BtcBlockPersistence)
        ensures
            r.wf(),
            r@ == Seq::<Block>::empty(),
    {
        BtcBlockPersistence { blocks: Vec::new() }
    }

    /// The pointer of the first stored transaction, by height then position, whose id is `hash`.
    pub fn find_tx_pointer(&self, hash: &[u8; 32]) -> (r: Option<TxPointer>)
        ensures
            r == first_in_blocks(self@, hash@, 0),
    {
        let mut i: usize = 0;
        while i < self.blocks.len()
            invariant
                i <= self@.len(),
                first_in_blocks(self@, hash@, 0) == first_in_blocks(self@, hash@, i as int),
            decreases self@.len() - i,
        {
            let txs = &self.blocks[i].transactions;
            let mut k: usize = 0;
            while k < txs.len()
                invariant
                    i < self@.len(),
                    txs@ == self@[i as int].transactions@,
                    first_in_blocks(self@, hash@, 0) == first_in_blocks(self@, hash@, i as int),
                    k <= txs@.len(),
                    first_in_txs(txs@, hash@, 0) == first_in_txs(txs@, hash@, k as int),
                decreases txs@.len() - k,
            {
                if same_hash(&txs[k].hash.0, hash) {
                    return Some(txs[k].id);
                }
                k += 1;
            }
            i += 1;
        }
        None
    }

    /// Binds an unresolved input to the output it spends, or to the sentinel.
    pub fn resolve_input(&self, t: &TempInputRef) -> (r: InputPointer)
        ensures
            r == resolved_pointer(self@, *t),
    {
        match self.find_tx_pointer(&t.tx_hash.0) {
            Some(p) => InputPointer::from_parent(p, t.index as u16),
            None => InputPointer::from_parent(TxPointer::from_parent(BlockHeight(0), 0), 0),
        }
    }

    /// Adds to `ins` one input for each of `ts`, bound against this store.
    fn resolve_inputs_onto(&self, ts: &Vec<TempInputRef>, ins: &mut Vec<InputRef>)
        ensures
            inputs_resolved(final(ins)@, old(ins)@, ts@, self@),
    {
        let ghost prev = ins@;
        let mut k: usize = 0;
        while k < ts.len()
            invariant
                k <= ts@.len(),
                ins@.len() == prev.len() + k,
                ins@.subrange(0, prev.len() as int) == prev,
                forall|m: int|
                    0 <= m < k ==> #[trigger] ins@[prev.len() + m].id == resolved_pointer(self@, ts@[m]),
            decreases ts@.len() - k,
        {
            let ghost before = ins@;
            ins.push(InputRef { id: self.resolve_input(&ts[k]) });
            proof {
                assert(ins@.subrange(0, prev.len() as int) =~= before.subrange(0, prev.len() as int));
                assert forall|m: int| 0 <= m < k + 1 implies #[trigger] ins@[prev.len() + m].id
                    == resolved_pointer(self@, ts@[m]) by {
                    if m < k {
                        assert(ins@[prev.len() + m] == before[prev.len() + m]);
                    }
                }
            }
            k += 1;
        }
    }

    /// The number of stored blocks.
    pub fn block_count(&self) -> (r: usize)
        ensures
            r == self@.len(),
    {
        self.blocks.len()
    }

    /// The stored block at `height`, if any.
    pub fn get_block(&self, height: u32) -> (r: Option<&Block>)
        requires
            self.wf(),
        ensures
            r is None <==> !has_height(self@, height),
            r matches Some(b) ==> exists|i: int| 0 <= i < self@.len() && self@[i] == *b && b.id.0 == height,
    {
        let p = self.position_of(height);
        if p < self.blocks.len() && self.blocks[p].id.0 == height {
            Some(&self.blocks[p])
        } else {
            None
        }
    }

    /// What to do with a fetched block whose header is `header`: store it if its height
    /// is free, skip it if the same block is stored there, replace it otherwise.
    pub fn action_for(&self, header: &BlockHeader) -> (r: StoreAction)
        requires
            self.wf(),
        ensures
            r == StoreAction::Store <==> !has_height(self@, header.id.0),
            r == StoreAction::Skip <==> holds_block(self@, header.id.0, header.hash.0@),
            r == StoreAction::Replace <==> has_height(self@, header.id.0) && !holds_block(
                self@,
                header.id.0,
                header.hash.0@,
            ),
    {
        let h = header.id.0;
        let p = self.position_of(h);
        if p < self.blocks.len() && self.blocks[p].id.0 == h {
            let same = same_hash(&self.blocks[p].header.hash.0, &header.hash.0);
            proof {
                assert forall|i: int| 0 <= i < self@.len() && self@[i].id.0 == h implies i == p by {
                    if i < p {
                        assert(self@[i].id.0 < self@[p as int].id.0);
                    } else if i > p {
                        assert(self@[p as int].id.0 < self@[i].id.0);
                    }
                }
            }
            if same {
                StoreAction::Skip
            } else {
                StoreAction::Replace
            }
        } else {
            proof {
                assert forall|i: int| 0 <= i < self@.len() implies self@[i].id.0 != h by {
                    if i > p {
                        assert(self@[p as int].id.0 < self@[i].id.0);
                    }
                }
            }
            StoreAction::Store
        }
    }

    /// The header of the highest stored block.
    pub fn get_last_header(&self) -> (r: Option<BlockHeader>)
        requires
            self.wf(),
        ensures
            self@.len() == 0 ==> r is None,
            self@.len() > 0 ==> r == Some(self@.last().header),
            r matches Some(h) ==> forall|i: int|
                0 <= i < self@.len() ==> #[trigger] self@[i].header.id.0 <= h.id.0,
    {
        let n = self.blocks.len();
        if n == 0 {
            None
        } else {
            Some(self.blocks[n - 1].header)
        }
    }

    /// The headers of the stored blocks whose hash is `hash`, by ascending height.
    pub fn get_header_by_hash(&self, hash: [u8; 32]) -> (r: Vec<BlockHeader>)
        ensures
            r@ == headers_with_hash(self@, hash@, self@.len() as int),
    {
        let mut r: Vec<BlockHeader> = Vec::new();
        let mut i: usize = 0;
        while i < self.blocks.len()
            invariant
                i <= self@.len(),
                r@ == headers_with_hash(self@, hash@, i as int),
            decreases self@.len() - i,
        {
            let header = self.blocks[i].header;
            if same_hash(&header.hash.0, &hash) {
                r.push(header);
            }
            i += 1;
        }
        r
    }

    /// The index of the first stored block whose height is `h` or more.
    fn position_of(&self, h: u32) -> (p: usize)
        requires
            self.wf(),
        ensures
            p <= self@.len(),
            forall|i: int| 0 <= i < p ==> self@[i].id.0 < h,
            forall|i: int| p <= i < self@.len() ==> self@[i].id.0 >= h,
    {
        let mut p: usize = 0;
        while p < self.blocks.len() && self.blocks[p].id.0 < h
            invariant
                self.wf(),
                p <= self@.len(),
                forall|i: int| 0 <= i < p ==> self@[i].id.0 < h,
            decreases self@.len() - p,
        {
            p += 1;
        }
        if p < self.blocks.len() {
            assert forall|i: int| p <= i < self@.len() implies self@[i].id.0 >= h by {
                if i > p {
                    assert(self@[p as int].id.0 < self@[i].id.0);
                }
            }
        }
        p
    }

    /// Binds the inputs of `block` against this store and stores it without what is
    /// never stored, unless its header is keyed by another height or a block of its
    /// height is already stored.
    pub fn store_block(&mut self, block: Block) -> (r: Result<(), ExplorerError>)
        requires
            old(self).wf(),
        ensures
            final(self).wf(),
            r is Ok <==> block.header.id == block.id && !has_height(old(self)@, block.id.0),
            r is Ok ==> store_step(old(self)@, block, final(self)@),
            r matches Err(e) ==> final(self)@ == old(self)@ && store_refused(old(self)@, block, e),
    {
        let h = block.id.0;
        if block.header.id.0 != h {
            return Err(ExplorerError::HeaderMismatch(h));
        }
        let mut block = block;
        let ghost b0 = block;
        self.populate_inputs(&mut block);
        let ghost b1 = block;
        let p = self.position_of(h);
        if p < self.blocks.len() && self.blocks[p].id.0 == h {
            return Err(ExplorerError::DuplicateHeight(h));
        }
        clear_transient(&mut block);
        let ghost s0 = self@;
        self.blocks.insert(p, block);
        assert(self@ == s0.insert(p as int, block));
        assert(!has_height(s0, h)) by {
            if has_height(s0, h) {
                let i = choose|i: int| 0 <= i < s0.len() && s0[i].id.0 == h;
                assert(i >= p);
            }
        }
        assert(sorted(self@)) by {
            assert forall|i: int, j: int| 0 <= i < j < self@.len() implies self@[i].id.0
                < self@[j].id.0 by {
                if j < p {
                } else if j == p {
                } else if i < p {
                    assert(self@[j] == s0[j - 1]);
                } else if i == p {
                    assert(s0[p as int].id.0 >= h);
                    if j - 1 > p {
                        assert(s0[p as int].id.0 < s0[j - 1].id.0);
                    }
                } else {
                    assert(self@[i] == s0[i - 1]);
                    assert(self@[j] == s0[j - 1]);
                }
            }
        }
        assert(headers_keyed(self@)) by {
            assert forall|i: int| 0 <= i < self@.len() implies #[trigger] self@[i].header.id
                == self@[i].id by {
                if i < p {
                    assert(self@[i] == s0[i]);
                } else if i > p {
                    assert(self@[i] == s0[i - 1]);
                }
            }
        }
        assert forall|i: int| 0 <= i < b0.transactions@.len() implies #[trigger] tx_stored(
            block.transactions@[i],
            b0.transactions@[i],
            s0,
        ) by {
            assert(tx_resolved(b1.transactions@[i], b0.transactions@[i], s0));
            assert(tx_cleared(block.transactions@[i], b1.transactions@[i]));
        }
        assert(block_stored(block, b0, s0));
        Ok(())
    }

    /// Stores the blocks in order, each committed before the next is resolved, so a
    /// block may spend outputs of an earlier block of the same batch. Stops at the
    /// first block that `store_block` refuses; the blocks before it stay stored.
    pub fn store_blocks(&mut self, blocks: Vec<Block>) -> (r: Result<(), ExplorerError>)
        requires
            old(self).wf(),
        ensures
            final(self).wf(),
            batch_stored(old(self)@, blocks@, final(self)@, r),
    {
        let ghost bs = blocks@;
        let ghost mut states: Seq<Seq<Block>> = seq![self@];
        let n: usize = blocks.len();
        let mut rest = blocks;
        let mut j: usize = 0;
        while rest.len() > 0
            invariant
                self.wf(),
                j + rest@.len() == bs.len(),
                bs.len() == n,
                bs == blocks@,
                rest@ == bs.subrange(j as int, bs.len() as int),
                store_chain(states, bs, j as int),
                states[0] == old(self)@,
                states[j as int] == self@,
            decreases rest@.len(),
        {
            let block = rest.remove(0);
            assert(block == bs[j as int]);
            match self.store_block(block) {
                Ok(()) => {
                    proof {
                        let next = states.push(self@);
                        assert forall|m: int| 0 <= m < j + 1 implies #[trigger] store_step(
                            next[m],
                            bs[m],
                            next[m + 1],
                        ) by {
                            if m < j {
                                assert(store_step(states[m], bs[m], states[m + 1]));
                            }
                        }
                        states = next;
                    }
                    j += 1;
                },
                Err(e) => {
                    assert(store_refused(self@, bs[j as int], e));
                    assert(store_chain(states, bs, j as int) && j < bs.len() && states[0] == old(self)@
                        && states[j as int] == self@);
                    assert(batch_stored(old(self)@, bs, self@, Err(e)));
                    return Err(e);
                },
            }
        }
        assert(states.last() == self@);
        Ok(())
    }

    /// Deletes the block at `height`, with all its transactions, outputs and inputs.
    pub fn delete_block(&mut self, height: BlockHeight)
        requires
            old(self).wf(),
        ensures
            final(self).wf(),
            forall|b: Block| #[trigger] final(self)@.contains(b) <==> old(self)@.contains(b)
                && b.id.0 != height.0,
    {
        let p = self.position_of(height.0);
        if p < self.blocks.len() && self.blocks[p].id.0 == height.0 {
            let ghost s0 = self@;
            self.blocks.remove(p);
            assert(self@ == s0.remove(p as int));
            assert forall|b: Block| #[trigger] self@.contains(b) <==> s0.contains(b) && b.id.0
                != height.0 by {
                if self@.contains(b) {
                    let i = choose|i: int| 0 <= i < self@.len() && self@[i] == b;
                    if i < p {
                        assert(s0[i] == b);
                    } else {
                        assert(s0[i + 1] == b);
                        assert(s0[p as int].id.0 < s0[i + 1].id.0);
                    }
                }
                if s0.contains(b) && b.id.0 != height.0 {
                    let i = choose|i: int| 0 <= i < s0.len() && s0[i] == b;
                    if i < p {
                        assert(self@[i] == b);
                    } else {
                        assert(i != p);
                        assert(self@[i - 1] == b);
                    }
                }
            }
        } else {
            assert forall|b: Block| #[trigger] self@.contains(b) implies b.id.0 != height.0 by {
                let i = choose|i: int| 0 <= i < self@.len() && self@[i] == b;
                if i > p {
                    assert(self@[p as int].id.0 < self@[i].id.0);
                }
            }
        }
    }

    /// Replaces blocks after a reorganisation: first deletes every block at a height
    /// of `blocks`, then stores `blocks` as `store_blocks` does.
    pub fn update_blocks(&mut self, blocks: Vec<Block>) -> (r: Result<(), ExplorerError>)
        requires
            old(self).wf(),
        ensures
            final(self).wf(),
            exists|mid: Seq<Block>|
                heights_deleted(old(self)@, blocks@, mid) && #[trigger] batch_stored(
                    mid,
                    blocks@,
                    final(self)@,
                    r,
                ),
    {
        let mut k: usize = 0;
        while k < blocks.len()
            invariant
                self.wf(),
                k <= blocks@.len(),
                forall|b: Block| #[trigger] self@.contains(b) <==> old(self)@.contains(b)
                    && !in_batch(blocks@.subrange(0, k as int), b.id.0),
            decreases blocks@.len() - k,
        {
            self.delete_block(blocks[k].id);
            proof {
                let pre = blocks@.subrange(0, k as int);
                let post = blocks@.subrange(0, k + 1);
                assert forall|h: u32| in_batch(post, h) <==> in_batch(pre, h) || h
                    == blocks@[k as int].id.0 by {
                    if in_batch(post, h) {
                        let j = choose|j: int| 0 <= j < post.len() && post[j].id.0 == h;
                        if j < k {
                            assert(pre[j] == post[j]);
                        }
                    }
                    if in_batch(pre, h) {
                        let j = choose|j: int| 0 <= j < pre.len() && pre[j].id.0 == h;
                        assert(post[j] == pre[j]);
                    }
                    if h == blocks@[k as int].id.0 {
                        assert(post[k as int].id.0 == h);
                    }
                }
            }
            k += 1;
        }
        let ghost mid = self@;
        assert(blocks@.subrange(0, blocks@.len() as int) == blocks@);
        let r = self.store_blocks(blocks);
        assert(heights_deleted(old(self)@, blocks@, mid));
        r
    }

    /// Binds the unresolved inputs of every transaction of `block` against this store,
    /// adding them after the inputs the transaction already has.
    pub fn populate_inputs(&self, block: &mut Block)
        ensures
            block_resolved(*final(block), *old(block), self@),
    {
        let mut pending: Vec<Transaction> = Vec::new();
        core::mem::swap(&mut pending, &mut block.transactions);
        let ghost orig = pending@;
        let mut done: Vec<Transaction> = Vec::with_capacity(pending.len());
        while pending.len() > 0
            invariant
                done@.len() + pending@.len() == orig.len(),
                pending@ == orig.subrange(done@.len() as int, orig.len() as int),
                forall|m: int| 0 <= m < done@.len() ==> #[trigger] tx_resolved(done@[m], orig[m], self@),
            decreases pending@.len(),
        {
            let mut tx = pending.remove(0);
            self.resolve_inputs_onto(&tx.transient_inputs, &mut tx.inputs);
            done.push(tx);
        }
        block.transactions = done;
    }
}

/// Drops what is never stored: the unresolved inputs and the weight.
fn clear_transient(block: &mut Block)
    ensures
        final(block).id == old(block).id,
        final(block).header == old(block).header,
        final(block).weight == 0,
        final(block).transactions@.len() == old(block).transactions@.len(),
        forall|i: int|
            0 <= i < old(block).transactions@.len() ==> #[trigger] tx_cleared(
                final(block).transactions@[i],
                old(block).transactions@[i],
            ),
{
    let mut pending: Vec<Transaction> = Vec::new();
    core::mem::swap(&mut pending, &mut block.transactions);
    let ghost orig = pending@;
    let mut done: Vec<Transaction> = Vec::with_capacity(pending.len());
    while pending.len() > 0
        invariant
            done@.len() + pending@.len() == orig.len(),
            pending@ == orig.subrange(done@.len() as int, orig.len() as int),
            forall|m: int| 0 <= m < done@.len() ==> #[trigger] tx_cleared(done@[m], orig[m]),
        decreases pending@.len(),
    {
        let mut tx = pending.remove(0);
        tx.transient_inputs = Vec::new();
        done.push(tx);
    }
    block.transactions = done;
    block.weight = 0;
}

} // verus!
