use cryo_freeze::balance_diffs::BalanceDiffColumns;
use cryo_freeze::balance_diffs::Diff;
use cryo_freeze::balance_diffs::BalanceEntry;
use cryo_freeze::balance_diffs::TraceData;
use cryo_freeze::balance_diffs::process_balance_diff;
use cryo_freeze::balance_diffs::process_balance_diffs;
use cryo_freeze::blocks::process_block;
use cryo_freeze::blocks::BlockColumns;
use cryo_freeze::blocks::BlockData;
use cryo_freeze::blocks::blocks_block_response;
use cryo_freeze::blocks::blocks_transaction_response;
use cryo_freeze::compose::blocks_and_transactions_transform;
use cryo_freeze::compose::BlocksAndTransactionsColumns;
use cryo_freeze::schema::BalanceDiffSchema;
use cryo_freeze::schema::BlockSchema;
use cryo_freeze::schema::Encoding;
use cryo_freeze::schema::Schemas;
use cryo_freeze::schema::TransactionSchema;
use cryo_freeze::transactions::TransactionColumns;
use cryo_freeze::transactions::TransactionData;
use cryo_freeze::types::CollectError;
use cryo_freeze::types::Datatype;
use cryo_freeze::wide::U256;

fn sample_block() -> BlockData {
    BlockData {
        hash: Some(vec![0x11; 32]),
        parent_hash: vec![0x22; 32],
        author: Some(vec![0x33; 20]),
        state_root: vec![0x44; 32],
        transactions_root: vec![0x55; 32],
        receipts_root: vec![0x66; 32],
        number: Some(1000),
        gas_used: 21000,
        extra_data: vec![1, 2, 3],
        logs_bloom: Some(vec![0; 256]),
        timestamp: 1_700_000_000,
        total_difficulty: Some(U256::from_u64(587500037165983u64)),
        size: Some(540),
        base_fee_per_gas: Some(7),
        transactions: vec![
            TransactionData { hash: vec![0xaa; 32], block_hash: Some(vec![0x11; 32]) },
            TransactionData { hash: vec![0xbb; 32], block_hash: Some(vec![0x11; 32]) },
        ],
    }
}

#[test]
fn binary_round_trip() {
    let mut bytes = vec![0u8; 32];
    bytes[0] = 0xde;
    bytes[31] = 0x01;
    let v = U256::from_be_bytes(bytes.clone());
    let out = v.to_be_bytes();
    assert_eq!(out, bytes);
    let back = U256::from_be_bytes(out);
    assert!(back.eq_value(&v));
}

#[test]
fn hex_round_trip() {
    let v = U256::from_u64(255);
    let h = v.encode_hex();
    let mut expected = b"0x".to_vec();
    expected.extend(b"0".repeat(62));
    expected.extend(b"ff");
    assert_eq!(h, expected);
    let back = U256::decode_hex(&h).expect("valid hex");
    assert!(back.eq_value(&v));
}

#[test]
fn hex_round_trip_large() {
    let bytes: Vec<u8> = (0u8..32u8).collect();
    let v = U256::from_be_bytes(bytes);
    let h = v.encode_hex();
    assert_eq!(h.len(), 66);
    let back = U256::decode_hex(&h).expect("valid hex");
    assert!(back.eq_value(&v));
}

#[test]
fn hex_decode_rejects_bad_input() {
    assert!(U256::decode_hex(&b"0xzz".to_vec()).is_none());
    let mut h = b"0x".to_vec();
    h.extend(b"0".repeat(63));
    h.push(b'g');
    assert!(U256::decode_hex(&h).is_none());
}

#[test]
fn decimal_round_trip() {
    let v = U256::from_u64(100);
    let d = v.encode_decimal();
    assert_eq!(d, b"100".to_vec());
    let back = U256::decode_decimal(&d).expect("valid decimal");
    assert!(back.eq_value(&v));

    let zero = U256::zero();
    assert_eq!(zero.encode_decimal(), b"0".to_vec());
    let back0 = U256::decode_decimal(&b"0".to_vec()).expect("valid decimal");
    assert!(back0.eq_value(&zero));
}

#[test]
fn decimal_round_trip_large() {
    let bytes = vec![0xffu8; 32];
    let v = U256::from_be_bytes(bytes);
    let d = v.encode_decimal();
    let back = U256::decode_decimal(&d).expect("valid decimal");
    assert!(back.eq_value(&v));
}

#[test]
fn decimal_decode_rejects_bad_input() {
    assert!(U256::decode_decimal(&b"".to_vec()).is_none());
    assert!(U256::decode_decimal(&b"007".to_vec()).is_none());
    assert!(U256::decode_decimal(&b"12a".to_vec()).is_none());
    // one more than the largest representable value
    let too_big =
        b"115792089237316195423570985008687907853269984665640564039457584007913129639936".to_vec();
    assert!(U256::decode_decimal(&too_big).is_none());
}

#[test]
fn words_round_trip() {
    let v = U256::from_u64(100);
    let (hi, lo) = v.encode_words().expect("fits in two words");
    assert_eq!((hi, lo), (0, 100));
    let back = U256::decode_words(hi, lo);
    assert!(back.eq_value(&v));
}

#[test]
fn words_overflow_is_encoding_error() {
    let mut bytes = vec![0u8; 32];
    bytes[15] = 1; // 2^128
    let v = U256::from_be_bytes(bytes);
    assert_eq!(v.encode_words(), Err(CollectError::EncodingError));
}

#[test]
fn block_transform_fills_enabled_columns() {
    let schema = BlockSchema::full(Encoding::Binary);
    let mut columns = BlockColumns::new(&schema);
    let block = sample_block();
    process_block(&block, &mut columns, &schema).expect("complete block");
    assert_eq!(columns.n_rows, 1);
    assert_eq!(columns.hash, vec![vec![0x11; 32]]);
    assert_eq!(columns.block_number, vec![Some(1000)]);
    assert_eq!(columns.gas_used, vec![21000]);
    assert_eq!(columns.base_fee_per_gas, vec![Some(7)]);
    let table = columns.create_df(&schema, 1).expect("consistent lengths");
    assert_eq!(table.n_rows, 1);
    assert_eq!(table.datatype, Datatype::Blocks);
    assert_eq!(table.columns.len(), 14);
}

#[test]
fn block_transform_skips_disabled_columns() {
    let mut schema = BlockSchema::full(Encoding::Binary);
    schema.gas_used = false;
    schema.total_difficulty = None;
    let mut columns = BlockColumns::new(&schema);
    let block = sample_block();
    process_block(&block, &mut columns, &schema).expect("complete block");
    assert_eq!(columns.n_rows, 1);
    assert_eq!(columns.gas_used.len(), 0);
    assert_eq!(columns.total_difficulty.bin.len(), 0);
    assert_eq!(columns.hash.len(), 1);
}

#[test]
fn block_transform_absent_optional_field_is_null() {
    let schema = BlockSchema::full(Encoding::Binary);
    let mut columns = BlockColumns::new(&schema);
    let mut block = sample_block();
    block.base_fee_per_gas = None;
    block.size = None;
    block.total_difficulty = None;
    process_block(&block, &mut columns, &schema).expect("optional fields may be absent");
    assert_eq!(columns.base_fee_per_gas, vec![None]);
    assert_eq!(columns.size, vec![None]);
    assert_eq!(columns.total_difficulty.bin, vec![None]);
}

#[test]
fn block_transform_missing_hash_is_fatal() {
    let schema = BlockSchema::full(Encoding::Binary);
    let mut columns = BlockColumns::new(&schema);
    let mut block = sample_block();
    block.hash = None;
    let r = process_block(&block, &mut columns, &schema);
    assert_eq!(r, Err(CollectError::MissingField));
    assert_eq!(columns.n_rows, 0);
}

#[test]
fn block_transform_missing_author_is_fatal() {
    let schema = BlockSchema::full(Encoding::Binary);
    let mut columns = BlockColumns::new(&schema);
    let mut block = sample_block();
    block.author = None;
    assert_eq!(process_block(&block, &mut columns, &schema), Err(CollectError::MissingField));
}

#[test]
fn block_transform_is_idempotent_after_reset() {
    let schema = BlockSchema::full(Encoding::Hex);
    let block = sample_block();
    let mut first = BlockColumns::new(&schema);
    process_block(&block, &mut first, &schema).expect("complete block");
    // reset: a fresh accumulator, same response and schema
    let mut second = BlockColumns::new(&schema);
    process_block(&block, &mut second, &schema).expect("complete block");
    assert_eq!(first.n_rows, second.n_rows);
    assert_eq!(first.hash, second.hash);
    assert_eq!(first.extra_data, second.extra_data);
    assert_eq!(first.total_difficulty.bin, second.total_difficulty.bin);
}

#[test]
fn balance_diff_classification_pairs() {
    let schema = BalanceDiffSchema::full(Encoding::Binary);
    let mut columns = BalanceDiffColumns::new(&schema);
    let addr = vec![0xabu8; 20];
    let cases = vec![
        (Diff::Same, 0u64, 0u64),
        (Diff::Born(U256::from_u64(5)), 0, 5),
        (Diff::Died(U256::from_u64(9)), 9, 0),
        (Diff::Changed(U256::from_u64(100), U256::from_u64(50)), 100, 50),
    ];
    for (i, (diff, from, to)) in cases.into_iter().enumerate() {
        process_balance_diff(&addr, &diff, &Some(7), &None, i, &mut columns, &schema)
            .expect("binary encoding never overflows");
        let last = columns.from_value.bin.last().unwrap();
        assert_eq!(last, &U256::from_u64(from).to_be_bytes());
        let last_to = columns.to_value.bin.last().unwrap();
        assert_eq!(last_to, &U256::from_u64(to).to_be_bytes());
    }
    assert_eq!(columns.n_rows, 4);
    assert_eq!(columns.transaction_index, vec![Some(0), Some(1), Some(2), Some(3)]);
}

#[test]
fn balance_diff_words_overflow_fails_row() {
    let schema = BalanceDiffSchema::full(Encoding::Words);
    let mut columns = BalanceDiffColumns::new(&schema);
    let mut bytes = vec![0u8; 32];
    bytes[0] = 1;
    let big = U256::from_be_bytes(bytes);
    let r = process_balance_diff(
        &vec![0u8; 20],
        &Diff::Born(big),
        &None,
        &None,
        0,
        &mut columns,
        &schema,
    );
    assert_eq!(r, Err(CollectError::EncodingError));
    assert_eq!(columns.n_rows, 0);
    assert_eq!(columns.to_value.hi.len(), 0);
}

#[test]
fn balance_diffs_empty_response_yields_no_rows() {
    let schema = BalanceDiffSchema::full(Encoding::Binary);
    let mut columns = BalanceDiffColumns::new(&schema);
    let response = (Some(1u32), None, Vec::<TraceData>::new());
    process_balance_diffs(&response, &mut columns, &schema).expect("no rows, no error");
    assert_eq!(columns.n_rows, 0);

    let mut columns2 = BalanceDiffColumns::new(&schema);
    let response2 = (Some(1u32), None, vec![TraceData { state_diff: None }]);
    process_balance_diffs(&response2, &mut columns2, &schema).expect("no rows, no error");
    assert_eq!(columns2.n_rows, 0);
}

#[test]
fn composed_transform_row_counts_are_independent() {
    let schemas = Schemas {
        blocks: Some(BlockSchema::full(Encoding::Binary)),
        transactions: Some(TransactionSchema::full()),
        balance_diffs: None,
    };
    let block = sample_block();
    let mut columns = BlocksAndTransactionsColumns(
        BlockColumns::new(&schemas.blocks.unwrap()),
        TransactionColumns::new(),
    );
    blocks_and_transactions_transform(&block, &mut columns, &schemas).expect("complete block");
    assert_eq!(columns.0.n_rows, 1);
    assert_eq!(columns.1.n_rows, 2);
    assert_eq!(columns.1.transaction_index, vec![0, 1]);
    assert_eq!(columns.1.transaction_hash, vec![vec![0xaa; 32], vec![0xbb; 32]]);
    let tables = columns.create_dfs(&schemas, 1).expect("consistent");
    assert_eq!(tables.len(), 2);
    assert_eq!(tables[0].0, Datatype::Blocks);
    assert_eq!(tables[1].0, Datatype::Transactions);
    assert_eq!(tables[0].1.n_rows, 1);
    assert_eq!(tables[1].1.n_rows, 2);
}

#[test]
fn end_to_end_block_with_diffs() {
    // one block with two transactions, one state diff Changed{100 -> 50},
    // scoped by block
    let block = sample_block();
    let block_schema = BlockSchema::full(Encoding::Binary);
    let mut block_columns = BlockColumns::new(&block_schema);
    process_block(&block, &mut block_columns, &block_schema).expect("complete block");
    let block_table = block_columns.create_df(&block_schema, 1).expect("consistent");
    assert_eq!(block_table.n_rows, 1);

    let diff_schema = BalanceDiffSchema::full(Encoding::Binary);
    let mut diff_columns = BalanceDiffColumns::new(&diff_schema);
    let response = (
        Some(1000u32),
        None, // block-scoped: no transaction hash
        vec![TraceData {
            state_diff: Some(vec![BalanceEntry {
                address: vec![0xaa; 20],
                balance: Diff::Changed(U256::from_u64(100), U256::from_u64(50)),
            }]),
        }],
    );
    process_balance_diffs(&response, &mut diff_columns, &diff_schema).expect("one clean row");
    assert_eq!(diff_columns.n_rows, 1);
    assert_eq!(diff_columns.from_value.bin, vec![U256::from_u64(100).to_be_bytes()]);
    assert_eq!(diff_columns.to_value.bin, vec![U256::from_u64(50).to_be_bytes()]);
    assert_eq!(diff_columns.transaction_index, vec![Some(0)]);
    assert_eq!(diff_columns.transaction_hash, vec![None]);
    let diff_table = diff_columns.create_df(&diff_schema, 1).expect("consistent");
    assert_eq!(diff_table.n_rows, 1);
    assert_eq!(diff_table.datatype, Datatype::BalanceDiffs);
}

#[test]
fn extract_decisions() {
    assert_eq!(blocks_block_response(None).map(|_| ()), Err(CollectError::NotFound));
    assert!(blocks_block_response(Some(sample_block())).is_ok());
    assert_eq!(blocks_transaction_response(None).map(|_| ()), Err(CollectError::NotFound));
    let no_block = TransactionData { hash: vec![0xaa; 32], block_hash: None };
    assert_eq!(
        blocks_transaction_response(Some(no_block)).map(|_| ()),
        Err(CollectError::MissingField)
    );
    let with_block = TransactionData { hash: vec![0xaa; 32], block_hash: Some(vec![0x11; 32]) };
    assert!(blocks_transaction_response(Some(with_block)).is_ok());
}

#[test]
fn block_create_df_rejects_length_mismatch() {
    let schema = BlockSchema::full(Encoding::Binary);
    let mut columns = BlockColumns::new(&schema);
    let block = sample_block();
    process_block(&block, &mut columns, &schema).expect("complete block");
    columns.n_rows = 5; // lengths no longer agree with the row counter
    assert!(matches!(
        columns.create_df(&schema, 1),
        Err(cryo_freeze::types::MaterializeError::LengthMismatch)
    ));
}

#[test]
fn composed_create_dfs_rejects_length_mismatch() {
    let schemas = Schemas {
        blocks: Some(BlockSchema::full(Encoding::Binary)),
        transactions: Some(TransactionSchema::full()),
        balance_diffs: None,
    };
    let block = sample_block();
    let mut columns = BlocksAndTransactionsColumns(
        BlockColumns::new(&schemas.blocks.unwrap()),
        TransactionColumns::new(),
    );
    blocks_and_transactions_transform(&block, &mut columns, &schemas).expect("complete block");
    columns.1.n_rows = 9; // one constituent inconsistent fails the whole map
    assert!(matches!(
        columns.create_dfs(&schemas, 1),
        Err(cryo_freeze::types::MaterializeError::LengthMismatch)
    ));
}

#[test]
fn balance_diff_create_df_rejects_length_mismatch() {
    let schema = BalanceDiffSchema::full(Encoding::Binary);
    let mut columns = BalanceDiffColumns::new(&schema);
    process_balance_diff(
        &vec![0xab; 20],
        &Diff::Born(U256::from_u64(5)),
        &Some(1),
        &None,
        0,
        &mut columns,
        &schema,
    )
    .expect("clean row");
    columns.n_rows = 3;
    assert!(matches!(
        columns.create_df(&schema, 1),
        Err(cryo_freeze::types::MaterializeError::LengthMismatch)
    ));
}
