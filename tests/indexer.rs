use bitcoin_explorer::address::derive_address;
use bitcoin_explorer::block_persistence::{same_hash, BtcBlockPersistence, StoreAction};
use bitcoin_explorer::block_processor::BtcBlockProcessor;
use bitcoin_explorer::block_provider::BtcBlockProvider;
use bitcoin_explorer::model::{
    Block, BlockHash, BlockHeader, BlockHeight, BlockTimestamp, ExplorerError, InputPointer,
    InputRef, TempInputRef, TxHash, TxPointer,
};
use bitcoin_explorer::pipeline::{BlockBatcher, ReorderBuffer};
use bitcoin_explorer::raw_block::{BtcBlock, RawBlock, RawHeader, RawTransaction, RawTxIn, RawTxOut};

fn hash_of(b: u8) -> [u8; 32] {
    [b; 32]
}

fn raw_tx(id: u8, inputs: Vec<([u8; 32], u32)>, amounts: Vec<u64>) -> RawTransaction {
    RawTransaction {
        txid: hash_of(id),
        input: inputs.into_iter().map(|(prev_txid, vout)| RawTxIn { prev_txid, vout }).collect(),
        output: amounts.into_iter().map(|value| RawTxOut { value, script_pubkey: vec![0x6a] }).collect(),
    }
}

fn btc_block(height: u32, hash: u8, txdata: Vec<RawTransaction>) -> BtcBlock {
    BtcBlock {
        height: BlockHeight(height),
        underlying: RawBlock {
            header: RawHeader { hash: hash_of(hash), prev_hash: hash_of(hash.wrapping_sub(1)), time: 1_231_006_505 },
            txdata,
        },
    }
}

fn decompose(b: &BtcBlock) -> Block {
    BtcBlockProcessor {}.process_block(b).expect("block fits its keys")
}

fn hex(s: &str) -> Vec<u8> {
    (0..s.len()).step_by(2).map(|i| u8::from_str_radix(&s[i..i + 2], 16).unwrap()).collect()
}

#[test]
fn decomposition_keys_transactions_outputs_and_weight() {
    let b = btc_block(
        7,
        9,
        vec![raw_tx(1, vec![], vec![50, 60, 70]), raw_tx(2, vec![(hash_of(1), 0), (hash_of(1), 2)], vec![40])],
    );
    let block = decompose(&b);
    assert_eq!(block.id, BlockHeight(7));
    assert_eq!(block.header.height(), 7);
    assert_eq!(block.header.hash(), hash_of(9));
    assert_eq!(block.header.prev_hash(), hash_of(8));
    assert_eq!(block.header.timestamp(), 1_231_006_505);
    assert_eq!(block.weight(), 6);
    assert_eq!(block.transactions.len(), 2);
    for (i, tx) in block.transactions.iter().enumerate() {
        assert_eq!(tx.id, TxPointer { parent: BlockHeight(7), index: i as u16 });
        assert!(tx.inputs.is_empty());
        for (j, u) in tx.utxos.iter().enumerate() {
            assert_eq!(u.id.parent, tx.id);
            assert_eq!(u.id.index, j as u16);
            assert_eq!(u.script_hash.0, vec![0x6a]);
            assert!(u.address.0.is_empty());
        }
    }
    assert_eq!(block.transactions[0].utxos.iter().map(|u| u.amount).collect::<Vec<_>>(), vec![50, 60, 70]);
    let t = &block.transactions[1].transient_inputs;
    assert_eq!(t.len(), 2);
    assert_eq!(t[1].tx_hash.0, hash_of(1));
    assert_eq!(t[1].index, 2);
}

#[test]
fn block_with_too_many_transactions_is_rejected() {
    let txs: Vec<RawTransaction> = (0..65537).map(|_| raw_tx(0, vec![], vec![])).collect();
    let b = btc_block(3, 1, txs);
    let processor = BtcBlockProcessor {};
    match processor.process_block(&b) {
        Err(ExplorerError::BlockTooLarge(h)) => assert_eq!(h, 3),
        other => panic!("unexpected {:?}", other.map(|b| b.id)),
    }
    let provider = BtcBlockProvider::new(4);
    assert!(matches!(provider.process_block(&b), Err(ExplorerError::BlockTooLarge(3))));
}

#[test]
fn address_of_pay_to_pubkey_hash_script() {
    let mut script = vec![0x76, 0xa9, 0x14];
    script.extend_from_slice(&[0u8; 20]);
    script.extend_from_slice(&[0x88, 0xac]);
    assert_eq!(String::from_utf8(derive_address(&script)).unwrap(), "1111111111111111111114oLvT2");
}

#[test]
fn address_of_pay_to_pubkey_script_is_its_key_hash_address() {
    let mut script = vec![0x41];
    script.extend(hex("04678afdb0fe5548271967f1a67130b7105cd6a828e03909a67962e0ea1f61deb649f6bc3f4cef38c4f35504e51ec112de5c384df7ba0b8d578a4c702b6bf11d5f"));
    script.push(0xac);
    assert_eq!(String::from_utf8(derive_address(&script)).unwrap(), "1A1zP1eP5QGefi2DMPTfTL5SLmv7DivfNa");
}

#[test]
fn address_of_unrecognised_script_is_empty() {
    assert!(derive_address(&vec![0x6a, 0x01, 0x02]).is_empty());
    assert!(derive_address(&vec![]).is_empty());
}

#[test]
fn timestamp_reads_as_utc() {
    assert_eq!(BlockTimestamp(1_231_006_505).to_readable(), "2009-01-03 18:15:05");
    assert_eq!(BlockTimestamp(0).to_readable(), "1970-01-01 00:00:00");
}

#[test]
fn storing_a_height_twice_is_rejected() {
    let mut store = BtcBlockPersistence::new();
    let b = btc_block(1, 1, vec![raw_tx(1, vec![], vec![10, 20])]);
    assert!(store.store_blocks(vec![decompose(&b)]).is_ok());
    match store.store_blocks(vec![decompose(&b)]) {
        Err(ExplorerError::DuplicateHeight(h)) => assert_eq!(h, 1),
        _ => panic!("second store must fail"),
    }
    assert_eq!(store.block_count(), 1);
    let stored = store.get_block(1).unwrap();
    assert_eq!(stored.transactions.len(), 1);
    assert_eq!(stored.transactions[0].utxos.len(), 2);
}

#[test]
fn batch_stops_at_first_duplicate_after_storing_earlier_blocks() {
    let mut store = BtcBlockPersistence::new();
    store.store_blocks(vec![decompose(&btc_block(2, 2, vec![raw_tx(2, vec![], vec![1])]))]).unwrap();
    let batch = vec![
        decompose(&btc_block(1, 1, vec![raw_tx(1, vec![], vec![1])])),
        decompose(&btc_block(2, 3, vec![raw_tx(3, vec![], vec![1])])),
        decompose(&btc_block(3, 4, vec![raw_tx(4, vec![], vec![1])])),
    ];
    assert!(matches!(store.store_blocks(batch), Err(ExplorerError::DuplicateHeight(2))));
    assert_eq!(store.block_count(), 2);
    assert!(store.get_block(1).is_some());
    assert!(store.get_block(3).is_none());
    assert_eq!(store.get_block(2).unwrap().header.hash.0, hash_of(2));
}

#[test]
fn input_resolves_to_pointer_of_spent_output() {
    let mut store = BtcBlockPersistence::new();
    let first = btc_block(1, 1, vec![raw_tx(0xaa, vec![], vec![5]), raw_tx(0xbb, vec![], vec![1, 2, 3, 4])]);
    store.store_blocks(vec![decompose(&first)]).unwrap();
    let spent = TempInputRef { tx_hash: TxHash(hash_of(0xbb)), index: 3 };
    let p = TxPointer { parent: BlockHeight(1), index: 1 };
    assert_eq!(store.find_tx_pointer(&hash_of(0xbb)), Some(p));
    assert_eq!(store.resolve_input(&spent), InputPointer { parent: p, index: 3 });
    let unknown = TempInputRef { tx_hash: TxHash(hash_of(0xcc)), index: 3 };
    let sentinel = InputPointer { parent: TxPointer { parent: BlockHeight(0), index: 0 }, index: 0 };
    assert_eq!(store.resolve_input(&unknown), sentinel);

    let second = btc_block(2, 2, vec![raw_tx(0xdd, vec![(hash_of(0xbb), 3), (hash_of(0xcc), 1)], vec![7])]);
    store.store_blocks(vec![decompose(&second)]).unwrap();
    let tx = &store.get_block(2).unwrap().transactions[0];
    assert_eq!(tx.inputs.len(), 2);
    assert_eq!(tx.inputs[0].id, InputPointer { parent: p, index: 3 });
    assert_eq!(tx.inputs[1].id, sentinel);
}

#[test]
fn later_block_of_a_batch_resolves_against_earlier_one() {
    let mut store = BtcBlockPersistence::new();
    let a = btc_block(4, 4, vec![raw_tx(0x11, vec![], vec![1, 2])]);
    let b = btc_block(5, 5, vec![raw_tx(0x12, vec![(hash_of(0x11), 1)], vec![3])]);
    store.store_blocks(vec![decompose(&a), decompose(&b)]).unwrap();
    let tx = &store.get_block(5).unwrap().transactions[0];
    assert_eq!(tx.inputs[0].id, InputPointer { parent: TxPointer { parent: BlockHeight(4), index: 0 }, index: 1 });
}

#[test]
fn fetched_blocks_leave_in_height_order() {
    let mut buffer: ReorderBuffer<u32> = ReorderBuffer::new(10, 20);
    let arrivals = [13u32, 10, 20, 11, 12, 17, 15, 14, 19, 16, 18];
    let mut out = Vec::new();
    for h in arrivals {
        buffer.accept(h, h * 100);
        while let Some((height, item)) = buffer.pop_ready() {
            assert_eq!(item, height * 100);
            out.push(height);
        }
    }
    assert!(buffer.is_done());
    assert_eq!(out, (10..=20).collect::<Vec<u32>>());
}

#[test]
fn nothing_leaves_before_the_lowest_height_arrives() {
    let mut buffer: ReorderBuffer<&str> = ReorderBuffer::new(0, 2);
    buffer.accept(2, "c");
    buffer.accept(1, "b");
    assert!(buffer.pop_ready().is_none());
    buffer.accept(0, "a");
    assert_eq!(buffer.pop_ready(), Some((0, "a")));
    assert_eq!(buffer.pop_ready(), Some((1, "b")));
    assert_eq!(buffer.pop_ready(), Some((2, "c")));
    assert!(buffer.pop_ready().is_none());
    assert!(buffer.is_done());
}

fn weighted(height: u32, weight: usize) -> Block {
    let outs = vec![1u64; weight];
    decompose(&btc_block(height, height as u8, vec![raw_tx(height as u8, vec![], outs)]))
}

#[test]
fn batches_close_when_weight_reaches_minimum() {
    let mut batcher = BlockBatcher::new(10);
    let mut batches: Vec<Vec<u32>> = Vec::new();
    for h in 0..4 {
        if let Some(batch) = batcher.push(weighted(h, 5)) {
            assert!(batch.iter().map(|b| b.weight()).sum::<u32>() >= 10);
            batches.push(batch.iter().map(|b| b.id.0).collect());
        }
    }
    assert!(batcher.finish().is_none());
    assert_eq!(batches, vec![vec![0, 1], vec![2, 3]]);
}

#[test]
fn trailing_light_batch_is_emitted_at_the_end() {
    let mut batcher = BlockBatcher::new(10);
    assert!(batcher.push(weighted(0, 5)).is_none());
    assert_eq!(batcher.push(weighted(1, 5)).map(|b| b.len()), Some(2));
    assert!(batcher.push(weighted(2, 5)).is_none());
    let last = batcher.finish().unwrap();
    assert_eq!(last.iter().map(|b| b.id.0).collect::<Vec<_>>(), vec![2]);
    assert!(batcher.finish().is_none());
}

#[test]
fn replacing_a_height_leaves_only_the_new_content() {
    let mut store = BtcBlockPersistence::new();
    let old = btc_block(5, 1, vec![raw_tx(0x21, vec![], vec![1, 2, 3]), raw_tx(0x22, vec![], vec![4])]);
    let other = btc_block(6, 2, vec![raw_tx(0x23, vec![], vec![9])]);
    store.store_blocks(vec![decompose(&old), decompose(&other)]).unwrap();
    let new = btc_block(5, 7, vec![raw_tx(0x31, vec![(hash_of(0x23), 0)], vec![8])]);
    store.update_blocks(vec![decompose(&new)]).unwrap();
    assert_eq!(store.block_count(), 2);
    let b = store.get_block(5).unwrap();
    assert_eq!(b.header.hash.0, hash_of(7));
    assert_eq!(b.transactions.len(), 1);
    assert_eq!(b.transactions[0].hash.0, hash_of(0x31));
    assert_eq!(b.transactions[0].utxos.len(), 1);
    assert_eq!(b.transactions[0].utxos[0].amount, 8);
    assert_eq!(b.transactions[0].inputs[0].id, InputPointer { parent: TxPointer { parent: BlockHeight(6), index: 0 }, index: 0 });
    assert_eq!(store.find_tx_pointer(&hash_of(0x21)), None);
    assert!(store.get_header_by_hash(hash_of(1)).is_empty());
    assert_eq!(store.get_header_by_hash(hash_of(7)).len(), 1);
}

#[test]
fn coinbase_only_block_is_stored_and_becomes_last_header() {
    let mut store = BtcBlockPersistence::new();
    assert!(store.get_last_header().is_none());
    let raw = btc_block(1, 1, vec![raw_tx(0x01, vec![], vec![1000, 2000])]);
    let block = decompose(&raw);
    assert_eq!(block.transactions[0].utxos.len(), 2);
    assert_eq!(block.transactions[0].transient_inputs.len(), 0);
    assert!(store.store_blocks(vec![block]).is_ok());
    assert!(store.get_block(1).unwrap().transactions[0].inputs.is_empty());
    let last = store.get_last_header().unwrap();
    assert_eq!(last.id, BlockHeight(1));
    assert_eq!(last.hash.0, hash_of(1));
}

#[test]
fn last_header_is_the_highest_and_headers_found_by_hash() {
    let mut store = BtcBlockPersistence::new();
    store.store_blocks(vec![decompose(&btc_block(3, 3, vec![])), decompose(&btc_block(1, 1, vec![]))]).unwrap();
    store.store_blocks(vec![decompose(&btc_block(2, 3, vec![]))]).unwrap();
    assert_eq!(store.get_last_header().unwrap().height(), 3);
    let found: Vec<u32> = store.get_header_by_hash(hash_of(3)).iter().map(|h| h.height()).collect();
    assert_eq!(found, vec![2, 3]);
}

#[test]
fn resume_range_refetches_last_stored_height() {
    let provider = BtcBlockProvider::new(8);
    let header = |h: u32| BlockHeader {
        id: BlockHeight(h),
        hash: BlockHash(hash_of(0)),
        prev_hash: BlockHash(hash_of(0)),
        timestamp: BlockTimestamp(0),
    };
    assert_eq!(provider.stream_range(&header(20), Some(header(10))), (10, 20));
    assert_eq!(provider.stream_range(&header(20), None), (0, 20));
}

#[test]
fn hashes_compare_bytewise() {
    assert!(same_hash(&hash_of(4), &hash_of(4)));
    let mut other = hash_of(4);
    other[31] = 5;
    assert!(!same_hash(&hash_of(4), &other));
}

#[test]
fn populate_adds_resolved_inputs_after_existing_ones() {
    let mut store = BtcBlockPersistence::new();
    store.store_blocks(vec![decompose(&btc_block(1, 1, vec![raw_tx(0xa1, vec![], vec![1, 2])]))]).unwrap();
    let mut block = decompose(&btc_block(2, 2, vec![raw_tx(0xa2, vec![(hash_of(0xa1), 1)], vec![3])]));
    let existing = InputPointer { parent: TxPointer { parent: BlockHeight(9), index: 9 }, index: 9 };
    block.transactions[0].inputs.push(InputRef { id: existing });
    store.populate_inputs(&mut block);
    let ins = &block.transactions[0].inputs;
    assert_eq!(ins.len(), 2);
    assert_eq!(ins[0].id, existing);
    assert_eq!(ins[1].id, InputPointer { parent: TxPointer { parent: BlockHeight(1), index: 0 }, index: 1 });
    assert_eq!(block.transactions[0].transient_inputs.len(), 1);
}

#[test]
fn stored_block_keeps_nothing_unpersisted() {
    let mut store = BtcBlockPersistence::new();
    let raw = btc_block(1, 1, vec![raw_tx(0xb1, vec![(hash_of(0xee), 0)], vec![1, 2])]);
    let block = decompose(&raw);
    assert_eq!(block.weight(), 3);
    store.store_blocks(vec![block]).unwrap();
    let stored = store.get_block(1).unwrap();
    assert_eq!(stored.weight(), 0);
    assert!(stored.transactions[0].transient_inputs.is_empty());
    assert_eq!(stored.transactions[0].inputs.len(), 1);
    assert_eq!(stored.transactions[0].utxos.len(), 2);
}

#[test]
fn block_whose_header_has_another_height_is_rejected() {
    let mut store = BtcBlockPersistence::new();
    let mut block = decompose(&btc_block(1, 1, vec![]));
    block.header.id = BlockHeight(5);
    assert!(matches!(store.store_blocks(vec![block]), Err(ExplorerError::HeaderMismatch(1))));
    assert_eq!(store.block_count(), 0);
    assert!(store.get_last_header().is_none());
}

#[test]
fn fetched_block_is_skipped_stored_or_replaced() {
    let mut store = BtcBlockPersistence::new();
    store.store_blocks(vec![decompose(&btc_block(10, 10, vec![]))]).unwrap();
    let same = decompose(&btc_block(10, 10, vec![]));
    let other = decompose(&btc_block(10, 11, vec![]));
    let next = decompose(&btc_block(11, 12, vec![]));
    assert_eq!(store.action_for(&same.header), StoreAction::Skip);
    assert_eq!(store.action_for(&other.header), StoreAction::Replace);
    assert_eq!(store.action_for(&next.header), StoreAction::Store);
}
