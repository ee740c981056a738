use std::path::PathBuf;

use borsh::BorshSerialize;
use solana_sdk::program_option::COption;
use solana_sdk::program_pack::Pack;
use solana_sdk::pubkey::Pubkey;
use spl_token::state::{Account, AccountState, Mint};

use snapshot_sqlite::account::StoredAccount;
use snapshot_sqlite::action::{Action, Counter};
use snapshot_sqlite::decimal::write_decimal;
use snapshot_sqlite::error::IndexError;
use snapshot_sqlite::mpl_metadata;
use snapshot_sqlite::sql::{write_insert, Statement, Table};
use snapshot_sqlite::temp_file::{Place, TempFileGuard};
use snapshot_sqlite::value::Value;
use snapshot_sqlite::worker::{unexpected_size_warning, Worker};

type Creators = Option<Vec<([u8; 32], bool, u8)>>;

fn key(n: u8) -> [u8; 32] {
    let mut k = [7u8; 32];
    k[31] = n;
    k
}

fn text(s: &str) -> Value {
    Value::Text(s.to_string())
}

fn address(k: [u8; 32]) -> Value {
    Value::Text(Pubkey::new_from_array(k).to_string())
}

fn token_account(amount: u64) -> Vec<u8> {
    let mut data = vec![0u8; Account::LEN];
    let account = Account {
        mint: Pubkey::new_from_array(key(1)),
        owner: Pubkey::new_from_array(key(2)),
        amount,
        delegate: COption::Some(Pubkey::new_from_array(key(3))),
        state: AccountState::Frozen,
        is_native: COption::Some(2039280),
        delegated_amount: 5,
        close_authority: COption::None,
    };
    Account::pack(account, &mut data).unwrap();
    data
}

fn mint(supply: u64) -> Vec<u8> {
    let mut data = vec![0u8; Mint::LEN];
    let mint = Mint {
        mint_authority: COption::None,
        supply,
        decimals: 9,
        is_initialized: true,
        freeze_authority: COption::Some(Pubkey::new_from_array(key(4))),
    };
    Mint::pack(mint, &mut data).unwrap();
    data
}

fn metadata(creators: Creators) -> Vec<u8> {
    let mut data = vec![4u8];
    (key(5), key(6), ("Name", "SYM", "https://uri", 250u16, creators), true, false)
        .serialize(&mut data)
        .unwrap();
    data
}

fn stored<'a>(pubkey: [u8; 32], owner: [u8; 32], data: &'a [u8]) -> StoredAccount<'a> {
    StoredAccount { pubkey, owner, data_len: data.len() as u64, data }
}

fn of_token<'a>(n: u8, data: &'a [u8]) -> StoredAccount<'a> {
    stored(key(n), spl_token::id().to_bytes(), data)
}

fn of_metadata<'a>(n: u8, data: &'a [u8]) -> StoredAccount<'a> {
    stored(key(n), mpl_metadata::id(), data)
}

/// The statements that a worker asks for over all accounts and at the end.
fn statements(accounts: &[StoredAccount]) -> Vec<Statement> {
    let mut worker = Worker::new();
    let mut actions = Vec::new();
    worker.on_append_vec(accounts, &mut actions).unwrap();
    worker.finish(&mut actions);
    let mut found = Vec::new();
    for action in actions {
        if let Action::Execute(statement) = action {
            found.push(statement);
        }
    }
    found
}

fn temp_guard() -> TempFileGuard {
    TempFileGuard::new(Place { dir: PathBuf::from("/data"), name: "index.db".to_string() }.temp())
}

/// How many accounts a finished worker has counted, and how many token accounts.
fn totals(worker: &Worker) -> (u64, u64) {
    let (stats, _) = worker.close(&mut temp_guard());
    (stats.accounts_total, stats.token_accounts_total)
}

fn metadata_cells(data: &[u8]) -> Vec<Value> {
    let mut found = statements(&[of_metadata(10, data)]);
    assert_eq!(found.len(), 1);
    found.pop().unwrap().params
}

fn metadata_cause(data: &[u8]) -> String {
    let mut worker = Worker::new();
    let mut actions = Vec::new();
    match worker.insert_account(&of_metadata(10, data), &mut actions) {
        Err(IndexError::InvalidMetadata { pubkey, cause }) => {
            assert_eq!(pubkey, key(10));
            assert!(actions.is_empty());
            cause
        }
        Ok(()) => panic!("indexed"),
    }
}

#[test]
fn token_account_becomes_a_row() {
    let data = token_account(u64::MAX);
    let found = statements(&[of_token(9, &data)]);
    assert_eq!(
        found,
        vec![Statement {
            sql: write_insert(Table::TokenAccount, 1),
            params: vec![
                address(key(9)),
                address(key(1)),
                address(key(2)),
                Value::Integer(-1),
                address(key(3)),
                Value::Integer(2),
                Value::Integer(2039280),
                Value::Integer(5),
                Value::Null,
            ],
        }]
    );
}

#[test]
fn key_text_is_base58() {
    let data = mint(1);
    let zeros = stored([0; 32], spl_token::id().to_bytes(), &data);
    let program = stored(spl_token::id().to_bytes(), spl_token::id().to_bytes(), &data);
    let found = statements(&[zeros, program]);
    assert_eq!(found[0].params[0], text("11111111111111111111111111111111"));
    assert_eq!(found[0].params[6], text("TokenkegQfeZyiNwAJbNbGKPFXCWuBvf9Ss623VQ5DA"));
}

#[test]
fn different_keys_have_different_texts() {
    let data = mint(1);
    let mut texts = Vec::new();
    for at in 0..32 {
        for n in [1u8, 57, 58, 255] {
            let mut pubkey = [0u8; 32];
            pubkey[at] = n;
            let found = statements(&[stored(pubkey, spl_token::id().to_bytes(), &data)]);
            match &found[0].params[0] {
                Value::Text(s) => texts.push(s.clone()),
                _ => panic!("no text"),
            }
        }
    }
    texts.sort();
    texts.dedup();
    assert_eq!(texts.len(), 128);
}

#[test]
fn only_mints_with_a_supply_of_one_are_indexed() {
    let (none, one, two) = (mint(0), mint(1), mint(2));
    let found = statements(&[of_token(1, &none), of_token(2, &one), of_token(3, &two)]);
    assert_eq!(
        found,
        vec![Statement {
            sql: write_insert(Table::TokenMint, 1),
            params: vec![
                address(key(2)),
                Value::Null,
                Value::Integer(1),
                Value::Integer(9),
                Value::Integer(1),
                address(key(4)),
            ],
        }]
    );
}

#[test]
fn token_accounts_that_do_not_unpack_are_counted_only() {
    let empty_account = vec![0u8; Account::LEN];
    let mut bad_tag = token_account(1);
    bad_tag[73] = 1;
    let mut bad_state = token_account(1);
    bad_state[108] = 3;
    let empty_mint = vec![0u8; Mint::LEN];
    let mut bad_flag = mint(1);
    bad_flag[45] = 2;
    let multisig = vec![0u8; 355];
    let accounts = [
        of_token(1, &empty_account),
        of_token(2, &bad_tag),
        of_token(3, &bad_state),
        of_token(4, &empty_mint),
        of_token(5, &bad_flag),
        of_token(6, &multisig),
    ];
    assert!(statements(&accounts).is_empty());
    let mut worker = Worker::new();
    let mut actions = Vec::new();
    worker.on_append_vec(&accounts, &mut actions).unwrap();
    worker.finish(&mut actions);
    assert_eq!(totals(&worker), (6, 6));
}

#[test]
fn token_accounts_of_unexpected_size_are_passed_over() {
    let data = vec![0u8; 166];
    let mut worker = Worker::new();
    let mut actions = Vec::new();
    worker.insert_account(&of_token(1, &data), &mut actions).unwrap();
    let warning = format!(
        "Token program account {} has unexpected size 166",
        Pubkey::new_from_array(key(1))
    );
    assert_eq!(
        actions,
        vec![Action::Warn(warning), Action::SetPosition(Counter::Accounts, 0)]
    );
    worker.finish(&mut actions);
    assert_eq!(totals(&worker), (1, 0));
}

#[test]
fn recorded_length_decides_before_the_data() {
    let data = token_account(1);
    let account = StoredAccount { data_len: 82, ..of_token(1, &data) };
    assert!(statements(&[account]).is_empty());
    let account = StoredAccount { data_len: 1, ..of_token(1, &data) };
    let mut worker = Worker::new();
    let mut actions = Vec::new();
    worker.insert_account(&account, &mut actions).unwrap();
    worker.finish(&mut actions);
    assert_eq!(totals(&worker), (1, 0));
}

#[test]
fn other_owners_are_counted_only() {
    let data = token_account(1);
    let account = stored(key(1), key(2), &data);
    let mut worker = Worker::new();
    let mut actions = Vec::new();
    worker.insert_account(&account, &mut actions).unwrap();
    assert_eq!(actions, vec![Action::SetPosition(Counter::Accounts, 0)]);
}

#[test]
fn metadata_without_extensions_becomes_a_row() {
    let data = metadata(None);
    let found = statements(&[of_metadata(10, &data)]);
    assert_eq!(
        found,
        vec![Statement {
            sql: write_insert(Table::TokenMetadata, 1),
            params: vec![
                address(key(10)),
                address(key(6)),
                text("Name"),
                address(key(5)),
                Value::Null,
                text("SYM"),
                text("https://uri"),
                Value::Integer(250),
                Value::Integer(1),
                Value::Integer(0),
                Value::Null,
                Value::Null,
                Value::Null,
            ],
        }]
    );
}

#[test]
fn creators_are_a_json_array() {
    let data = metadata(Some(vec![(key(1), true, 60), (key(2), false, 40)]));
    let expected = format!(
        "[\"{}\",\"{}\"]",
        Pubkey::new_from_array(key(1)),
        Pubkey::new_from_array(key(2))
    );
    assert_eq!(metadata_cells(&data)[4], text(&expected));
    let data = metadata(Some(vec![]));
    assert_eq!(metadata_cells(&data)[4], text("[]"));
}

#[test]
fn extensions_fill_the_last_columns() {
    let mut data = metadata(None);
    data.extend_from_slice(&[1, 254]);
    let cells = metadata_cells(&data);
    assert_eq!(&cells[10..], &[Value::Integer(254), Value::Null, Value::Null]);

    let mut data = metadata(None);
    (Some(254u8), Some(3u8), Some((true, key(8))), Some((2u8, 1u64, 9u64)))
        .serialize(&mut data)
        .unwrap();
    let cells = metadata_cells(&data);
    assert_eq!(&cells[10..], &[Value::Integer(254), Value::Integer(1), address(key(8))]);

    let mut data = metadata(None);
    data.push(0);
    (None::<u8>, Some((false, key(8))), None::<u8>).serialize(&mut data).unwrap();
    let cells = metadata_cells(&data);
    assert_eq!(&cells[10..], &[Value::Null, Value::Integer(0), address(key(8))]);
}

#[test]
fn invalid_extensions_are_left_out() {
    // An unknown token standard, and an unknown use method.
    for tail in [
        (Some(1u8), Some(4u8), Some((true, key(8))), None),
        (Some(1u8), None, Some((true, key(8))), Some((3u8, 1u64, 1u64))),
    ] {
        let mut data = metadata(None);
        tail.serialize(&mut data).unwrap();
        let cells = metadata_cells(&data);
        assert_eq!(&cells[10..], &[Value::Integer(1), Value::Null, Value::Null]);
    }
    // A first extension of another form hides the second.
    let mut data = metadata(None);
    data.push(2);
    (None::<u8>, Some((true, key(8))), None::<u8>).serialize(&mut data).unwrap();
    assert_eq!(&metadata_cells(&data)[10..], &[Value::Null, Value::Null, Value::Null]);
    // A second extension that is cut off.
    let mut data = metadata(None);
    data.extend_from_slice(&[1, 7, 0, 1, 1, 9]);
    assert_eq!(&metadata_cells(&data)[10..], &[Value::Integer(7), Value::Null, Value::Null]);
}

#[test]
fn other_metadata_accounts_are_passed_over() {
    let good = metadata(None);
    let mut edition = good.clone();
    edition[0] = 1;
    let mut unknown = good.clone();
    unknown[0] = 200;
    let mut worker = Worker::new();
    let mut actions = Vec::new();
    for data in [&vec![], &edition, &unknown] {
        worker.insert_account(&of_metadata(1, data), &mut actions).unwrap();
    }
    assert_eq!(actions, vec![Action::SetPosition(Counter::Accounts, 0)]);
}

#[test]
fn metadata_that_is_cut_off_is_an_error() {
    let data = metadata(Some(vec![(key(1), true, 100)]));
    for n in 1..data.len() {
        assert_eq!(metadata_cause(&data[..n]), "Unexpected length of input");
    }
}

#[test]
fn metadata_errors_tell_the_cause() {
    let good = metadata(None);
    let mut bad = good.clone();
    let last = bad.len() - 1;
    bad[last] = 7;
    assert_eq!(metadata_cause(&bad), "Invalid bool representation: 7");
    bad[last] = 42;
    assert_eq!(metadata_cause(&bad), "Invalid bool representation: 42");
    bad[last] = 255;
    assert_eq!(metadata_cause(&bad), "Invalid bool representation: 255");
    let mut bad = good.clone();
    let flag = bad.len() - 3;
    bad[flag] = 3;
    assert_eq!(
        metadata_cause(&bad),
        "Invalid Option representation: 3. The first byte must be 0 or 1"
    );
    let mut bad = good.clone();
    bad[1 + 64 + 4] = 0xff;
    assert_eq!(metadata_cause(&bad), "invalid utf-8 sequence of 1 bytes from index 0");
    let mut bad = metadata(Some(vec![(key(1), true, 100)]));
    let at = bad.len() - 4;
    bad[at] = 9;
    assert_eq!(metadata_cause(&bad), "Invalid bool representation: 9");
    // The first entry that does not fit decides, whatever comes behind it.
    let mut bad = metadata(Some(vec![(key(1), true, 50), (key(2), true, 50)]));
    let second = bad.len() - 2 - 2;
    bad[second] = 8;
    bad[second - 34] = 9;
    assert_eq!(metadata_cause(&bad), "Invalid bool representation: 9");
    assert_eq!(metadata_cause(&bad[..second - 33]), "Invalid bool representation: 9");
    bad[second - 34] = 1;
    assert_eq!(metadata_cause(&bad[..second]), "Unexpected length of input");
    assert_eq!(metadata_cause(&bad[..second + 1]), "Invalid bool representation: 8");
}

#[test]
fn error_message_names_the_account() {
    let error = IndexError::InvalidMetadata {
        pubkey: spl_token::id().to_bytes(),
        cause: "Unexpected length of input".to_string(),
    };
    assert_eq!(
        error.message(),
        "Invalid token-metadata v1 metadata acc TokenkegQfeZyiNwAJbNbGKPFXCWuBvf9Ss623VQ5DA: \
         Unexpected length of input"
    );
}

#[test]
fn an_invalid_account_stops_the_indexing_and_changes_nothing() {
    let (one, bad) = (mint(1), vec![4u8]);
    let accounts = [of_token(1, &one), of_metadata(2, &bad), of_token(3, &one)];
    let mut worker = Worker::new();
    let mut actions = Vec::new();
    assert!(worker.on_append_vec(&accounts, &mut actions).is_err());
    assert_eq!(
        actions,
        vec![
            Action::SetPosition(Counter::TokenAccounts, 0),
            Action::SetPosition(Counter::Accounts, 0),
        ]
    );
    actions.clear();
    worker.finish(&mut actions);
    assert_eq!(totals(&worker), (1, 1));
    assert_eq!(actions.len(), 2);
}

#[test]
fn rows_are_inserted_two_hundred_at_once() {
    let data = token_account(1);
    let mut worker = Worker::new();
    for n in 0..200u64 {
        let mut actions = Vec::new();
        worker.insert_account(&of_token(n as u8, &data), &mut actions).unwrap();
        let executes = actions.iter().filter(|a| matches!(a, Action::Execute(_))).count();
        assert_eq!(executes, if n == 199 { 1 } else { 0 });
        if let Some(Action::Execute(statement)) = actions.first() {
            assert_eq!(statement.sql, write_insert(Table::TokenAccount, 200));
            assert_eq!(statement.params.len(), 1800);
            assert_eq!(statement.params[0], address(key(0)));
            assert_eq!(statement.params[199 * 9], address(key(199)));
        }
    }
    let mut actions = Vec::new();
    worker.finish(&mut actions);
    assert_eq!(actions, vec![Action::Pragma("query_only", Value::Integer(1))]);
}

#[test]
fn the_rest_is_inserted_table_by_table() {
    let (account, one, meta) = (token_account(1), mint(1), metadata(None));
    let accounts = [of_token(1, &account), of_token(2, &one), of_metadata(3, &meta)];
    let heads: Vec<String> = statements(&accounts).into_iter().map(|s| s.sql).collect();
    assert_eq!(
        heads,
        vec![
            write_insert(Table::TokenMetadata, 1),
            write_insert(Table::TokenMint, 1),
            write_insert(Table::TokenAccount, 1),
        ]
    );
}

#[test]
fn groups_of_accounts_do_not_matter() {
    let (account, one, meta) = (token_account(1), mint(1), metadata(None));
    let accounts = [of_token(1, &account), of_token(2, &one), of_metadata(3, &meta)];
    let mut at_once = Vec::new();
    Worker::new().on_append_vec(&accounts, &mut at_once).unwrap();
    let mut worker = Worker::new();
    let mut in_parts = Vec::new();
    worker.on_append_vec(&accounts[..1], &mut in_parts).unwrap();
    worker.on_append_vec(&accounts[1..], &mut in_parts).unwrap();
    assert_eq!(at_once, in_parts);
}

#[test]
fn progress_bars_move_every_1024_counts() {
    let data = vec![];
    let account = stored(key(1), key(2), &data);
    let mut worker = Worker::new();
    let mut actions = Vec::new();
    for _ in 0..2049 {
        worker.insert_account(&account, &mut actions).unwrap();
    }
    assert_eq!(
        actions,
        vec![
            Action::SetPosition(Counter::Accounts, 0),
            Action::SetPosition(Counter::Accounts, 1024),
            Action::SetPosition(Counter::Accounts, 2048),
        ]
    );
    worker.finish(&mut actions);
    assert_eq!(totals(&worker), (2049, 0));
}

#[test]
fn metadata_counts_move_their_own_bar() {
    let meta = metadata(None);
    let mut worker = Worker::new();
    let mut actions = Vec::new();
    worker.insert_account(&of_metadata(1, &meta), &mut actions).unwrap();
    assert_eq!(
        actions,
        vec![
            Action::SetPosition(Counter::MetaplexAccounts, 0),
            Action::SetPosition(Counter::Accounts, 0),
        ]
    );
}

#[test]
fn warnings_name_the_account_and_the_recorded_size() {
    let account = StoredAccount {
        pubkey: spl_token::id().to_bytes(),
        owner: key(2),
        data_len: u64::MAX,
        data: &[],
    };
    assert_eq!(
        unexpected_size_warning(&account),
        "Token program account TokenkegQfeZyiNwAJbNbGKPFXCWuBvf9Ss623VQ5DA \
         has unexpected size 18446744073709551615"
    );
}

#[test]
fn only_accounts_of_the_token_program_are_warned_of() {
    let (odd, account, one) = (vec![0u8; 164], token_account(1), mint(1));
    let accounts = [
        stored(key(1), key(2), &odd),
        of_metadata(2, &odd),
        of_token(3, &account),
        of_token(4, &one),
        of_token(5, &odd),
    ];
    let mut worker = Worker::new();
    let mut actions = Vec::new();
    worker.on_append_vec(&accounts, &mut actions).unwrap();
    let warnings: Vec<Action> =
        actions.into_iter().filter(|a| matches!(a, Action::Warn(_))).collect();
    assert_eq!(warnings, vec![Action::Warn(unexpected_size_warning(&accounts[4]))]);
}

#[test]
fn decimal_numbers() {
    for n in [0, 9, 10, 99, 100, 166, 1024, 9876543210, u64::MAX] {
        assert_eq!(write_decimal(n), n.to_string());
    }
}

#[test]
fn metadata_rows_are_counted_and_inserted_in_full_batches() {
    let (meta, edition) = (metadata(None), vec![1u8]);
    let mut worker = Worker::new();
    let mut inserted = 0;
    for n in 1..=450u64 {
        let mut actions = Vec::new();
        worker.insert_token_metadata(&of_metadata(n as u8, &meta), &mut actions).unwrap();
        worker.insert_token_metadata(&of_metadata(n as u8, &edition), &mut actions).unwrap();
        for action in actions {
            if let Action::Execute(statement) = action {
                assert_eq!(statement.sql, write_insert(Table::TokenMetadata, 200));
                inserted += statement.params.len() as u64 / 13;
            }
        }
        assert_eq!(inserted, n / 200 * 200);
        assert_eq!(worker.total(Counter::MetaplexAccounts), n);
    }
    let mut actions = Vec::new();
    worker.finish(&mut actions);
    match &actions[0] {
        Action::Execute(statement) => assert_eq!(statement.params.len(), 50 * 13),
        _ => panic!("no statement"),
    }
}

#[test]
fn finishing_asks_for_the_rest_and_closing_gives_up_the_file() {
    let one = mint(1);
    let mut worker = Worker::new();
    let mut actions = Vec::new();
    worker.insert_account(&of_token(1, &one), &mut actions).unwrap();
    actions.clear();
    let mut guard = temp_guard();
    worker.finish(&mut actions);
    assert!(guard.path.is_some());
    let (stats, temp) = worker.close(&mut guard);
    assert_eq!((temp.dir, temp.name.as_str()), (PathBuf::from("/data"), "_index.db.tmp"));
    assert!(guard.path.is_none());
    assert_eq!((stats.accounts_total, stats.token_accounts_total), (1, 1));
    assert_eq!(actions.len(), 2);
    match &actions[0] {
        Action::Execute(statement) => {
            assert_eq!(statement.sql, write_insert(Table::TokenMint, 1))
        }
        _ => panic!("no statement"),
    }
    assert_eq!(actions[1], Action::Pragma("query_only", Value::Integer(1)));
}
