use solana_sdk::program_pack::Pack;
use std::path::PathBuf;

use rusqlite::Connection;
use snapshot_sqlite::account::StoredAccount;
use snapshot_sqlite::action::Action;
use snapshot_sqlite::bytes::{as_i64, same_key};
use snapshot_sqlite::database::{create_db, set_cache_size};
use snapshot_sqlite::mpl_metadata;
use snapshot_sqlite::progress::ProgressCounter;
use snapshot_sqlite::sql::{write_insert, Table};
use snapshot_sqlite::temp_file::{temp_file_name, Place, TempFileGuard};
use snapshot_sqlite::token::{TokenKind, MINT_LEN, MULTISIG_LEN, TOKEN_ACCOUNT_LEN};
use snapshot_sqlite::value::Value;
use snapshot_sqlite::worker::Worker;

fn bind(value: Value) -> rusqlite::types::Value {
    match value {
        Value::Null => rusqlite::types::Value::Null,
        Value::Integer(n) => rusqlite::types::Value::Integer(n),
        Value::Text(s) => rusqlite::types::Value::Text(s),
    }
}

fn perform(db: &Connection, actions: Vec<Action>) {
    for action in actions {
        match action {
            Action::Execute(statement) => {
                let params: Vec<rusqlite::types::Value> =
                    statement.params.into_iter().map(bind).collect();
                db.execute(&statement.sql, rusqlite::params_from_iter(params)).unwrap();
            }
            Action::Pragma(name, value) => db.pragma_update(None, name, bind(value)).unwrap(),
            Action::SetPosition(_, _) | Action::Warn(_) => {}
        }
    }
}

fn number(db: &Connection, sql: &str) -> i64 {
    db.query_row(sql, [], |row| row.get(0)).unwrap()
}

#[test]
fn sizes_are_those_of_the_token_program() {
    assert_eq!(TOKEN_ACCOUNT_LEN, spl_token::state::Account::LEN);
    assert_eq!(MINT_LEN, spl_token::state::Mint::LEN);
    assert_eq!(MULTISIG_LEN, spl_token::state::Multisig::LEN);
    assert_eq!(TokenKind::of_len(165), TokenKind::Account);
    assert_eq!(TokenKind::of_len(82), TokenKind::Mint);
    assert_eq!(TokenKind::of_len(355), TokenKind::Multisig);
    assert_eq!(TokenKind::of_len(0), TokenKind::Unexpected);
}

#[test]
fn metadata_program_address() {
    assert_eq!(
        solana_sdk::bs58::encode(mpl_metadata::id()).into_string(),
        "metaqbxxUerdq28cj1RbAWkYQm3ybzjb6a8bt518x1s"
    );
}

#[test]
fn insert_texts() {
    let mut groups = " (?, ?, ?, ?, ?, ?, ?, ?, ?),".repeat(3);
    groups.pop();
    assert_eq!(
        write_insert(Table::TokenAccount, 3),
        format!("INSERT OR REPLACE INTO token_account (pubkey, mint, owner, amount, delegate, state, is_native, delegated_amount, close_authority) VALUES {}", groups)
    );
    assert_eq!(
        write_insert(Table::TokenMint, 1),
        "INSERT OR REPLACE INTO token_mint (pubkey, mint_authority, supply, decimals, is_initialized, freeze_authority) VALUES  (?, ?, ?, ?, ?, ?)"
    );
    let mut groups = " (?, ?, ?, ?, ?, ?, ?, ?, ?, ?, ?, ?, ?),".repeat(2);
    groups.pop();
    assert_eq!(
        write_insert(Table::TokenMetadata, 2),
        format!("INSERT OR REPLACE INTO token_metadata (\n    pubkey,\n    mint,\n    name,\n    update_authority,\n    creators,\n    symbol,\n    uri,\n    seller_fee_basis_points,\n    primary_sale_happened,\n    is_mutable,\n    edition_nonce,\n    collection_verified,\n    collection_key\n) VALUES {}", groups)
    );
}

#[test]
fn placeholders_match_the_columns() {
    for (table, columns) in
        [(Table::TokenMetadata, 13), (Table::TokenMint, 6), (Table::TokenAccount, 9)]
    {
        for rows in [1, 2, 200] {
            assert_eq!(write_insert(table, rows).matches('?').count(), columns * rows);
        }
    }
}

#[test]
fn database_setup() {
    let plan = create_db();
    assert_eq!(plan.len(), 12);
    assert_eq!(plan[0], Action::Pragma("synchronous", Value::Integer(0)));
    assert_eq!(plan[1], Action::Pragma("journal_mode", Value::Text("off".to_string())));
    assert_eq!(plan[2], Action::Pragma("locking_mode", Value::Text("EXCLUSIVE".to_string())));
    assert_eq!(plan[3], Action::Pragma("temp_store", Value::Text("MEMORY".to_string())));
    assert_eq!(plan[4], Action::Pragma("cache_size", Value::Integer(-2000000)));
    let db = Connection::open_in_memory().unwrap();
    perform(&db, plan);
    let tables = "SELECT count(*) FROM sqlite_master WHERE type = 'table'";
    assert_eq!(number(&db, tables), 5);
    let indexes = "SELECT count(*) FROM sqlite_master WHERE type = 'index' AND sql NOT NULL";
    assert_eq!(number(&db, indexes), 2);
    assert_eq!(number(&db, "PRAGMA cache_size"), -2000000);
}

#[test]
fn cache_size_is_in_kib() {
    assert_eq!(set_cache_size(64), Action::Pragma("cache_size", Value::Integer(-65536)));
    assert_eq!(set_cache_size(0), Action::Pragma("cache_size", Value::Integer(0)));
    assert_eq!(set_cache_size(-1), Action::Pragma("cache_size", Value::Integer(1024)));
}

#[test]
fn finished_database_holds_every_row() {
    let db = Connection::open_in_memory().unwrap();
    perform(&db, create_db());
    let mut data = vec![0u8; 165];
    data[108] = 1;
    let mut worker = Worker::new();
    for n in 0..450u64 {
        let mut pubkey = [0u8; 32];
        pubkey[24..].copy_from_slice(&n.to_be_bytes());
        data[64..72].copy_from_slice(&n.to_le_bytes());
        let account = StoredAccount {
            pubkey,
            owner: spl_token::id().to_bytes(),
            data_len: 165,
            data: &data,
        };
        let mut actions = Vec::new();
        worker.on_append_vec(&[account], &mut actions).unwrap();
        perform(&db, actions);
    }
    assert_eq!(number(&db, "SELECT count(*) FROM token_account"), 400);
    let mut actions = Vec::new();
    worker.finish(&mut actions);
    perform(&db, actions);
    let target = Place { dir: PathBuf::from("/data"), name: "index.db".to_string() };
    let mut guard = TempFileGuard::new(target.temp());
    let (stats, _) = worker.close(&mut guard);
    assert_eq!((stats.accounts_total, stats.token_accounts_total), (450, 450));
    assert_eq!(number(&db, "SELECT count(*) FROM token_account"), 450);
    assert_eq!(number(&db, "SELECT sum(amount) FROM token_account"), 449 * 450 / 2);
    assert!(db.execute("DELETE FROM token_account", []).is_err());
}

#[test]
fn later_row_replaces_one_with_the_same_key() {
    let db = Connection::open_in_memory().unwrap();
    perform(&db, create_db());
    let mut data = vec![0u8; 165];
    data[108] = 1;
    let mut newer = data.clone();
    newer[64] = 5;
    let account = StoredAccount {
        pubkey: [1; 32],
        owner: spl_token::id().to_bytes(),
        data_len: 165,
        data: &data,
    };
    let mut worker = Worker::new();
    let mut actions = Vec::new();
    worker
        .on_append_vec(&[account, StoredAccount { data: &newer, ..account }], &mut actions)
        .unwrap();
    worker.finish(&mut actions);
    perform(&db, actions);
    assert_eq!(number(&db, "SELECT count(*) FROM token_account"), 1);
    assert_eq!(number(&db, "SELECT amount FROM token_account"), 5);
}

#[test]
fn numbers_keep_their_bits() {
    assert_eq!(as_i64(0), 0);
    assert_eq!(as_i64(i64::MAX as u64), i64::MAX);
    assert_eq!(as_i64(1 << 63), i64::MIN);
    assert_eq!(as_i64(u64::MAX), -1);
}

#[test]
fn keys_are_compared_whole() {
    let mut other = [9u8; 32];
    assert!(same_key(&[9; 32], &other));
    other[31] = 8;
    assert!(!same_key(&[9; 32], &other));
}

#[test]
fn counter_tells_every_1024th_position() {
    let mut counter = ProgressCounter::new();
    assert_eq!(counter.get(), 0);
    assert_eq!(counter.inc(), Some(0));
    for _ in 1..1024 {
        assert_eq!(counter.inc(), None);
    }
    assert_eq!(counter.inc(), Some(1024));
    assert_eq!(counter.get(), 1025);
}

#[test]
fn temporary_name() {
    assert_eq!(temp_file_name("index.db"), "_index.db.tmp");
    assert_eq!(temp_file_name(""), "_.tmp");
}

#[test]
fn different_names_have_different_temporary_names() {
    let mut names: Vec<String> =
        ["a.db", "b.db", "_a.db", "a.db.tmp", "_a.db.tmp"].iter().map(|n| temp_file_name(n)).collect();
    names.sort();
    names.dedup();
    assert_eq!(names.len(), 5);
}

#[test]
fn different_places_have_different_temporary_places() {
    let mut paths = Vec::new();
    for dir in ["", "/data", "/data/more", "/_data"] {
        for name in ["index.db", "_index.db"] {
            let target = PathBuf::from(dir).join(name);
            let temp = Place { dir: PathBuf::from(dir), name: name.to_string() }.temp();
            assert_eq!(temp.dir, PathBuf::from(dir));
            assert_eq!(temp.name, temp_file_name(name));
            let path = temp.dir.join(&temp.name);
            assert_eq!(path, target.with_file_name(temp_file_name(name)));
            paths.push(path);
        }
    }
    paths.sort();
    paths.dedup();
    assert_eq!(paths.len(), 8);
}

#[test]
fn promoted_file_is_not_guarded_any_more() {
    let target = Place { dir: PathBuf::from("/data"), name: "index.db".to_string() };
    let mut guard = TempFileGuard::new(target.temp());
    assert_eq!(guard.path.as_ref().unwrap().name, "_index.db.tmp");
    let temp = guard.promote();
    assert_eq!((temp.dir, temp.name.as_str()), (PathBuf::from("/data"), "_index.db.tmp"));
    assert!(guard.path.is_none());
}

#[test]
fn guards_of_equal_names_in_different_directories_differ() {
    let guard = |dir: &str| {
        let target = Place { dir: PathBuf::from(dir), name: "index.db".to_string() };
        TempFileGuard::new(target.temp())
    };
    let (x, y) = (guard("/one").path.unwrap(), guard("/two").path.unwrap());
    assert_eq!(x.name, y.name);
    assert_ne!(x.dir, y.dir);
    assert_ne!(x.dir.join(&x.name), y.dir.join(&y.name));
}
