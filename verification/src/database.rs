//! Setting up the database.
use vstd::prelude::*;

use crate::action;
use crate::action::{Action, ActionView};
use crate::sql;
use crate::sql::{Statement, StatementView, Table};
use crate::value;
use crate::value::{Value, ValueView};

verus! {

/// The table of accounts of all kinds.
pub const CREATE_ACCOUNT: &'static str = "CREATE TABLE account  (
    pubkey BLOB(32) NOT NULL PRIMARY KEY,
    data_len INTEGER(8) NOT NULL,
    owner BLOB(32) NOT NULL,
    lamports INTEGER(8) NOT NULL,
    executable INTEGER(1) NOT NULL,
    rent_epoch INTEGER(8) NOT NULL
);";

/// The table of mints.
pub const CREATE_TOKEN_MINT: &'static str = "CREATE TABLE token_mint (
    pubkey TEXT(32) NOT NULL PRIMARY KEY,
    mint_authority BLOB(32) NULL,
    supply INTEGER(8) NOT NULL,
    decimals INTEGER(2) NOT NULL,
    is_initialized BOOL NOT NULL,
    freeze_authority BLOB(32) NULL
);";

/// The table of token accounts.
pub const CREATE_TOKEN_ACCOUNT: &'static str = "CREATE TABLE token_account (
    pubkey TEXT(32) NOT NULL PRIMARY KEY,
    mint TEXT(32) NOT NULL,
    owner TEXT(32) NOT NULL,
    amount INTEGER(8) NOT NULL,
    delegate TEXT(32),
    state INTEGER(1) NOT NULL,
    is_native INTEGER(8),
    delegated_amount INTEGER(8) NOT NULL,
    close_authority BLOB(32)
);";

/// The table of the signers of multisignature accounts.
pub const CREATE_TOKEN_MULTISIG: &'static str = "CREATE TABLE token_multisig (
    pubkey BLOB(32) NOT NULL,
    signer BLOB(32) NOT NULL,
    m INTEGER(2) NOT NULL,
    n INTEGER(2) NOT NULL,
    PRIMARY KEY (pubkey, signer)
);";

/// The table of token metadata.
pub const CREATE_TOKEN_METADATA: &'static str = "CREATE TABLE token_metadata (
    pubkey TEXT(32) NOT NULL,
    mint TEXT(32) NOT NULL,
    name TEXT(32) NOT NULL,
    update_authority TEXT(32) NULL,
    creators TEXT NULL,
    symbol TEXT(10) NOT NULL,
    uri TEXT(200) NOT NULL,
    seller_fee_basis_points INTEGER(4) NOT NULL,
    primary_sale_happened INTEGER(1) NOT NULL,
    is_mutable INTEGER(1) NOT NULL,
    edition_nonce INTEGER(2) NULL,
    collection_verified INTEGER(1) NULL,
    collection_key BLOB(32) NULL
);";

/// The index that finds metadata by its mint.
pub const CREATE_TOKEN_METADATA_INDEX: &'static str = "CREATE INDEX token_metadata_mint_idx ON token_metadata(mint);";

/// The index that finds token accounts by their mint.
pub const CREATE_TOKEN_ACCOUNT_INDEX: &'static str = "CREATE INDEX token_account_mint_idx ON token_account(mint);";

/// A pragma with a number for its value.
pub open spec fn number_pragma(name: Seq<char>, n: int) -> ActionView {
    ActionView::Pragma(name, ValueView::Integer(n))
}

/// A pragma with a word for its value.
pub open spec fn word_pragma(name: Seq<char>, word: Seq<char>) -> ActionView {
    ActionView::Pragma(name, ValueView::Text(word))
}

/// A statement without placeholders.
pub open spec fn plain_statement(sql: Seq<char>) -> ActionView {
    ActionView::Execute(StatementView { sql, params: Seq::empty() })
}

/// What a new database is set up with, in order: fast and unsafe to crashes, for this
/// process alone, with a cache of 2,000,000 KiB; then its tables and indexes.
pub open spec fn create_db_plan() -> Seq<ActionView> {
    seq![
        number_pragma("synchronous"@, 0),
        word_pragma("journal_mode"@, "off"@),
        word_pragma("locking_mode"@, "EXCLUSIVE"@),
        word_pragma("temp_store"@, "MEMORY"@),
        number_pragma("cache_size"@, -2000000),
        plain_statement(CREATE_ACCOUNT@),
        plain_statement(CREATE_TOKEN_MINT@),
        plain_statement(CREATE_TOKEN_ACCOUNT@),
        plain_statement(CREATE_TOKEN_MULTISIG@),
        plain_statement(CREATE_TOKEN_METADATA@),
        plain_statement(CREATE_TOKEN_METADATA_INDEX@),
        plain_statement(CREATE_TOKEN_ACCOUNT_INDEX@),
    ]
}

fn plain(sql: &str) -> (a: Action)
    ensures
        a@ == plain_statement(sql@),
{
    let params: Vec<Value> = Vec::new();
    assert(value::values_view(params@) =~= Seq::empty());
    Action::Execute(Statement { sql: sql.to_string(), params })
}

fn set_word(name: &'static str, word: &str) -> (a: Action)
    ensures
        a@ == word_pragma(name@, word@),
{
    Action::Pragma(name, Value::Text(word.to_string()))
}

/// Sets up a new database.
pub fn create_db() -> (actions: Vec<Action>)
    ensures
        action::actions_view(actions@) == create_db_plan(),
{
    let mut actions: Vec<Action> = Vec::new();
    actions.push(Action::Pragma("synchronous", Value::Integer(0)));
    actions.push(set_word("journal_mode", "off"));
    actions.push(set_word("locking_mode", "EXCLUSIVE"));
    actions.push(set_word("temp_store", "MEMORY"));
    actions.push(Action::Pragma("cache_size", Value::Integer(-2000000)));
    actions.push(plain(CREATE_ACCOUNT));
    actions.push(plain(CREATE_TOKEN_MINT));
    actions.push(plain(CREATE_TOKEN_ACCOUNT));
    actions.push(plain(CREATE_TOKEN_MULTISIG));
    actions.push(plain(CREATE_TOKEN_METADATA));
    actions.push(plain(CREATE_TOKEN_METADATA_INDEX));
    actions.push(plain(CREATE_TOKEN_ACCOUNT_INDEX));
    assert(action::actions_view(actions@) =~= create_db_plan());
    actions
}

/// Sets the size of the page cache. SQLite takes a negative size as a number of KiB.
pub fn set_cache_size(size_mib: i64) -> (a: Action)
    requires
        i64::MIN < size_mib * 1024 <= i64::MAX,
    ensures
        a@ == number_pragma("cache_size"@, -(size_mib * 1024)),
        a@ == ActionView::Pragma("cache_size"@, ValueView::Integer(-(size_mib * 1024))),
{
    let size: i64 = size_mib * 1024;
    Action::Pragma("cache_size", Value::Integer(-size))
}

/// What each column of a table holds, in the order of the cells of a row. Rows of mints and
/// of token accounts are keyed by their address.
pub open spec fn column_types(table: Table) -> Seq<Seq<char>> {
    match table {
        Table::TokenMetadata => seq![
            "TEXT(32) NOT NULL"@,
            "TEXT(32) NOT NULL"@,
            "TEXT(32) NOT NULL"@,
            "TEXT(32) NULL"@,
            "TEXT NULL"@,
            "TEXT(10) NOT NULL"@,
            "TEXT(200) NOT NULL"@,
            "INTEGER(4) NOT NULL"@,
            "INTEGER(1) NOT NULL"@,
            "INTEGER(1) NOT NULL"@,
            "INTEGER(2) NULL"@,
            "INTEGER(1) NULL"@,
            "BLOB(32) NULL"@,
        ],
        Table::TokenMint => seq![
            "TEXT(32) NOT NULL PRIMARY KEY"@,
            "BLOB(32) NULL"@,
            "INTEGER(8) NOT NULL"@,
            "INTEGER(2) NOT NULL"@,
            "BOOL NOT NULL"@,
            "BLOB(32) NULL"@,
        ],
        Table::TokenAccount => seq![
            "TEXT(32) NOT NULL PRIMARY KEY"@,
            "TEXT(32) NOT NULL"@,
            "TEXT(32) NOT NULL"@,
            "INTEGER(8) NOT NULL"@,
            "TEXT(32)"@,
            "INTEGER(1) NOT NULL"@,
            "INTEGER(8)"@,
            "INTEGER(8) NOT NULL"@,
            "BLOB(32)"@,
        ],
    }
}

/// The statement that creates a table.
pub open spec fn create_text(table: Table) -> Seq<char> {
    match table {
        Table::TokenMetadata => CREATE_TOKEN_METADATA@,
        Table::TokenMint => CREATE_TOKEN_MINT@,
        Table::TokenAccount => CREATE_TOKEN_ACCOUNT@,
    }
}

/// The columns of a table, each by its name and what it holds.
pub open spec fn definitions(table: Table) -> Seq<Seq<char>> {
    Seq::new(
        sql::column_names(table).len(),
        |i: int| sql::column_names(table)[i] + " "@ + column_types(table)[i],
    )
}

proof fn lemma_token_mint_columns()
    ensures
        create_text(Table::TokenMint) == "CREATE TABLE "@ + sql::table_name(Table::TokenMint) + " (\n    "@ + sql::joined(
            definitions(Table::TokenMint),
            ",\n    "@,
        ) + "\n);"@,
{
    let columns = definitions(Table::TokenMint);
    sql::lemma_joined_start(columns, ",\n    "@);
    sql::lemma_joined_next(columns, 1, ",\n    "@);
    sql::lemma_joined_next(columns, 2, ",\n    "@);
    sql::lemma_joined_next(columns, 3, ",\n    "@);
    sql::lemma_joined_next(columns, 4, ",\n    "@);
    sql::lemma_joined_next(columns, 5, ",\n    "@);
    assert(columns.take(6) =~= columns);
    reveal_strlit("CREATE TABLE token_mint (
    pubkey TEXT(32) NOT NULL PRIMARY KEY,
    mint_authority BLOB(32) NULL,
    supply INTEGER(8) NOT NULL,
    decimals INTEGER(2) NOT NULL,
    is_initialized BOOL NOT NULL,
    freeze_authority BLOB(32) NULL
);");
    reveal_strlit("CREATE TABLE ");
    reveal_strlit("token_mint");
    reveal_strlit(" (\n    ");
    reveal_strlit(",\n    ");
    reveal_strlit("\n);");
    reveal_strlit(" ");
    reveal_strlit("pubkey");
    reveal_strlit("TEXT(32) NOT NULL PRIMARY KEY");
    reveal_strlit("mint_authority");
    reveal_strlit("BLOB(32) NULL");
    reveal_strlit("supply");
    reveal_strlit("INTEGER(8) NOT NULL");
    reveal_strlit("decimals");
    reveal_strlit("INTEGER(2) NOT NULL");
    reveal_strlit("is_initialized");
    reveal_strlit("BOOL NOT NULL");
    reveal_strlit("freeze_authority");
}

proof fn lemma_token_account_columns()
    ensures
        create_text(Table::TokenAccount) == "CREATE TABLE "@ + sql::table_name(Table::TokenAccount) + " (\n    "@ + sql::joined(
            definitions(Table::TokenAccount),
            ",\n    "@,
        ) + "\n);"@,
{
    let columns = definitions(Table::TokenAccount);
    sql::lemma_joined_start(columns, ",\n    "@);
    sql::lemma_joined_next(columns, 1, ",\n    "@);
    sql::lemma_joined_next(columns, 2, ",\n    "@);
    sql::lemma_joined_next(columns, 3, ",\n    "@);
    sql::lemma_joined_next(columns, 4, ",\n    "@);
    sql::lemma_joined_next(columns, 5, ",\n    "@);
    sql::lemma_joined_next(columns, 6, ",\n    "@);
    sql::lemma_joined_next(columns, 7, ",\n    "@);
    sql::lemma_joined_next(columns, 8, ",\n    "@);
    assert(columns.take(9) =~= columns);
    reveal_strlit("CREATE TABLE token_account (
    pubkey TEXT(32) NOT NULL PRIMARY KEY,
    mint TEXT(32) NOT NULL,
    owner TEXT(32) NOT NULL,
    amount INTEGER(8) NOT NULL,
    delegate TEXT(32),
    state INTEGER(1) NOT NULL,
    is_native INTEGER(8),
    delegated_amount INTEGER(8) NOT NULL,
    close_authority BLOB(32)
);");
    reveal_strlit("CREATE TABLE ");
    reveal_strlit("token_account");
    reveal_strlit(" (\n    ");
    reveal_strlit(",\n    ");
    reveal_strlit("\n);");
    reveal_strlit(" ");
    reveal_strlit("pubkey");
    reveal_strlit("TEXT(32) NOT NULL PRIMARY KEY");
    reveal_strlit("mint");
    reveal_strlit("TEXT(32) NOT NULL");
    reveal_strlit("owner");
    reveal_strlit("amount");
    reveal_strlit("INTEGER(8) NOT NULL");
    reveal_strlit("delegate");
    reveal_strlit("TEXT(32)");
    reveal_strlit("state");
    reveal_strlit("INTEGER(1) NOT NULL");
    reveal_strlit("is_native");
    reveal_strlit("INTEGER(8)");
    reveal_strlit("delegated_amount");
    reveal_strlit("close_authority");
    reveal_strlit("BLOB(32)");
}

proof fn lemma_token_metadata_columns()
    ensures
        create_text(Table::TokenMetadata) == "CREATE TABLE "@ + sql::table_name(Table::TokenMetadata) + " (\n    "@ + sql::joined(
            definitions(Table::TokenMetadata),
            ",\n    "@,
        ) + "\n);"@,
{
    let columns = definitions(Table::TokenMetadata);
    sql::lemma_joined_start(columns, ",\n    "@);
    sql::lemma_joined_next(columns, 1, ",\n    "@);
    sql::lemma_joined_next(columns, 2, ",\n    "@);
    sql::lemma_joined_next(columns, 3, ",\n    "@);
    sql::lemma_joined_next(columns, 4, ",\n    "@);
    sql::lemma_joined_next(columns, 5, ",\n    "@);
    sql::lemma_joined_next(columns, 6, ",\n    "@);
    sql::lemma_joined_next(columns, 7, ",\n    "@);
    sql::lemma_joined_next(columns, 8, ",\n    "@);
    sql::lemma_joined_next(columns, 9, ",\n    "@);
    sql::lemma_joined_next(columns, 10, ",\n    "@);
    sql::lemma_joined_next(columns, 11, ",\n    "@);
    sql::lemma_joined_next(columns, 12, ",\n    "@);
    assert(columns.take(13) =~= columns);
    reveal_strlit("CREATE TABLE token_metadata (
    pubkey TEXT(32) NOT NULL,
    mint TEXT(32) NOT NULL,
    name TEXT(32) NOT NULL,
    update_authority TEXT(32) NULL,
    creators TEXT NULL,
    symbol TEXT(10) NOT NULL,
    uri TEXT(200) NOT NULL,
    seller_fee_basis_points INTEGER(4) NOT NULL,
    primary_sale_happened INTEGER(1) NOT NULL,
    is_mutable INTEGER(1) NOT NULL,
    edition_nonce INTEGER(2) NULL,
    collection_verified INTEGER(1) NULL,
    collection_key BLOB(32) NULL
);");
    reveal_strlit("CREATE TABLE ");
    reveal_strlit("token_metadata");
    reveal_strlit(" (\n    ");
    reveal_strlit(",\n    ");
    reveal_strlit("\n);");
    reveal_strlit(" ");
    reveal_strlit("pubkey");
    reveal_strlit("TEXT(32) NOT NULL");
    reveal_strlit("mint");
    reveal_strlit("name");
    reveal_strlit("update_authority");
    reveal_strlit("TEXT(32) NULL");
    reveal_strlit("creators");
    reveal_strlit("TEXT NULL");
    reveal_strlit("symbol");
    reveal_strlit("TEXT(10) NOT NULL");
    reveal_strlit("uri");
    reveal_strlit("TEXT(200) NOT NULL");
    reveal_strlit("seller_fee_basis_points");
    reveal_strlit("INTEGER(4) NOT NULL");
    reveal_strlit("primary_sale_happened");
    reveal_strlit("INTEGER(1) NOT NULL");
    reveal_strlit("is_mutable");
    reveal_strlit("edition_nonce");
    reveal_strlit("INTEGER(2) NULL");
    reveal_strlit("collection_verified");
    reveal_strlit("INTEGER(1) NULL");
    reveal_strlit("collection_key");
    reveal_strlit("BLOB(32) NULL");
}

/// The tables are created with the columns that rows are inserted into, in the same order.
pub proof fn law_tables_have_the_columns_of_their_rows(table: Table)
    ensures
        column_types(table).len() == sql::columns(table),
        create_text(table) == "CREATE TABLE "@ + sql::table_name(table) + " (\n    "@ + sql::joined(
            definitions(table),
            ",\n    "@,
        ) + "\n);"@,
{
    match table {
        Table::TokenMetadata => lemma_token_metadata_columns(),
        Table::TokenMint => lemma_token_mint_columns(),
        Table::TokenAccount => lemma_token_account_columns(),
    }
}

/// The tables of mints and of token accounts are keyed by the address of the account, so that
/// a later row of an account replaces an earlier one, since rows are inserted or replaced.
pub proof fn law_tables_are_keyed_by_address(table: Table)
    requires
        table == Table::TokenMint || table == Table::TokenAccount,
    ensures
        ("CREATE TABLE "@ + sql::table_name(table)
            + " (\n    pubkey TEXT(32) NOT NULL PRIMARY KEY,\n    "@).is_prefix_of(
            create_text(table),
        ),
        ("INSERT OR REPLACE INTO "@ + sql::table_name(table) + " (pubkey, "@).is_prefix_of(
            sql::insert_head(table),
        ),
{
    if table == Table::TokenMint {
        lemma_token_mint_key();
    } else {
        lemma_token_account_key();
    }
}

proof fn lemma_token_mint_key()
    ensures
        ("CREATE TABLE "@ + sql::table_name(Table::TokenMint)
            + " (\n    pubkey TEXT(32) NOT NULL PRIMARY KEY,\n    "@).is_prefix_of(
            create_text(Table::TokenMint),
        ),
        ("INSERT OR REPLACE INTO "@ + sql::table_name(Table::TokenMint) + " (pubkey, "@).is_prefix_of(
            sql::insert_head(Table::TokenMint),
        ),
{
    reveal_strlit("CREATE TABLE token_mint (
    pubkey TEXT(32) NOT NULL PRIMARY KEY,
    mint_authority BLOB(32) NULL,
    supply INTEGER(8) NOT NULL,
    decimals INTEGER(2) NOT NULL,
    is_initialized BOOL NOT NULL,
    freeze_authority BLOB(32) NULL
);");
    reveal_strlit("INSERT OR REPLACE INTO token_mint (pubkey, mint_authority, supply, decimals, is_initialized, freeze_authority) VALUES ");
    reveal_strlit("CREATE TABLE ");
    reveal_strlit("token_mint");
    reveal_strlit(" (\n    pubkey TEXT(32) NOT NULL PRIMARY KEY,\n    ");
    reveal_strlit("INSERT OR REPLACE INTO ");
    reveal_strlit(" (pubkey, ");
}

proof fn lemma_token_account_key()
    ensures
        ("CREATE TABLE "@ + sql::table_name(Table::TokenAccount)
            + " (\n    pubkey TEXT(32) NOT NULL PRIMARY KEY,\n    "@).is_prefix_of(
            create_text(Table::TokenAccount),
        ),
        ("INSERT OR REPLACE INTO "@ + sql::table_name(Table::TokenAccount) + " (pubkey, "@).is_prefix_of(
            sql::insert_head(Table::TokenAccount),
        ),
{
    reveal_strlit("CREATE TABLE token_account (
    pubkey TEXT(32) NOT NULL PRIMARY KEY,
    mint TEXT(32) NOT NULL,
    owner TEXT(32) NOT NULL,
    amount INTEGER(8) NOT NULL,
    delegate TEXT(32),
    state INTEGER(1) NOT NULL,
    is_native INTEGER(8),
    delegated_amount INTEGER(8) NOT NULL,
    close_authority BLOB(32)
);");
    reveal_strlit("INSERT OR REPLACE INTO token_account (pubkey, mint, owner, amount, delegate, state, is_native, delegated_amount, close_authority) VALUES ");
    reveal_strlit("CREATE TABLE ");
    reveal_strlit("token_account");
    reveal_strlit(" (\n    pubkey TEXT(32) NOT NULL PRIMARY KEY,\n    ");
    reveal_strlit("INSERT OR REPLACE INTO ");
    reveal_strlit(" (pubkey, ");
}

/// The statements that make the tables and indexes of a database.
pub open spec fn schema() -> Seq<Seq<char>> {
    seq![
        CREATE_ACCOUNT@,
        CREATE_TOKEN_MINT@,
        CREATE_TOKEN_ACCOUNT@,
        CREATE_TOKEN_MULTISIG@,
        CREATE_TOKEN_METADATA@,
        CREATE_TOKEN_METADATA_INDEX@,
        CREATE_TOKEN_ACCOUNT_INDEX@,
    ]
}

/// The texts of the statements among actions that have no values, in order.
pub open spec fn plain_texts(actions: Seq<ActionView>) -> Seq<Seq<char>>
    decreases actions.len(),
{
    if actions.len() == 0 {
        Seq::empty()
    } else {
        match actions.last() {
            ActionView::Execute(statement) if statement.params.len() == 0 => plain_texts(
                actions.drop_last(),
            ).push(statement.sql),
            _ => plain_texts(actions.drop_last()),
        }
    }
}

/// The pragmas among actions, in order.
pub open spec fn pragmas(actions: Seq<ActionView>) -> Seq<(Seq<char>, ValueView)>
    decreases actions.len(),
{
    if actions.len() == 0 {
        Seq::empty()
    } else {
        match actions.last() {
            ActionView::Pragma(name, value) => pragmas(actions.drop_last()).push((name, value)),
            _ => pragmas(actions.drop_last()),
        }
    }
}

proof fn lemma_plan(actions: Seq<ActionView>, k: int)
    requires
        0 <= k < actions.len(),
    ensures
        plain_texts(actions.take(k + 1)) == match actions[k] {
            ActionView::Execute(statement) if statement.params.len() == 0 => plain_texts(
                actions.take(k),
            ).push(statement.sql),
            _ => plain_texts(actions.take(k)),
        },
        pragmas(actions.take(k + 1)) == match actions[k] {
            ActionView::Pragma(name, value) => pragmas(actions.take(k)).push((name, value)),
            _ => pragmas(actions.take(k)),
        },
{
    assert(actions.take(k + 1).drop_last() =~= actions.take(k));
    assert(actions.take(k + 1).last() == actions[k]);
}

/// A new database is given its tables and its indexes, each exactly once, the tables first,
/// and nothing else is run; and it is tuned by five pragmas, and by no other: without waiting
/// for the disk, without a journal, locked for this process, with temporary tables in memory,
/// and with a cache of 2,000,000 KiB.
pub proof fn law_new_databases_have_the_schema()
    ensures
        plain_texts(create_db_plan()) == schema(),
        plain_texts(create_db_plan())[1] == create_text(Table::TokenMint),
        plain_texts(create_db_plan())[2] == create_text(Table::TokenAccount),
        plain_texts(create_db_plan())[4] == create_text(Table::TokenMetadata),
        pragmas(create_db_plan()) == seq![
            ("synchronous"@, ValueView::Integer(0)),
            ("journal_mode"@, ValueView::Text("off"@)),
            ("locking_mode"@, ValueView::Text("EXCLUSIVE"@)),
            ("temp_store"@, ValueView::Text("MEMORY"@)),
            ("cache_size"@, ValueView::Integer(-2000000)),
        ],
        create_db_plan().len() == plain_texts(create_db_plan()).len() + pragmas(
            create_db_plan(),
        ).len(),
        schema().no_duplicates(),
        forall|i: int| 0 <= i < 5 ==> "CREATE TABLE "@.is_prefix_of(#[trigger] schema()[i]),
        forall|i: int| 5 <= i < 7 ==> "CREATE INDEX "@.is_prefix_of(#[trigger] schema()[i]),
{
    let plan = create_db_plan();
    lemma_plan(plan, 0);
    lemma_plan(plan, 1);
    lemma_plan(plan, 2);
    lemma_plan(plan, 3);
    lemma_plan(plan, 4);
    lemma_plan(plan, 5);
    lemma_plan(plan, 6);
    lemma_plan(plan, 7);
    lemma_plan(plan, 8);
    lemma_plan(plan, 9);
    lemma_plan(plan, 10);
    lemma_plan(plan, 11);
    assert(plan.take(0) =~= Seq::empty());
    assert(plan.take(12) =~= plan);
    lemma_schema_texts();
}

/// How the statements of the schema begin, and where they differ.
proof fn lemma_schema_texts()
    ensures
        schema().no_duplicates(),
        forall|i: int| 0 <= i < 5 ==> "CREATE TABLE "@.is_prefix_of(#[trigger] schema()[i]),
        forall|i: int| 5 <= i < 7 ==> "CREATE INDEX "@.is_prefix_of(#[trigger] schema()[i]),
{
    reveal_strlit("CREATE TABLE account  (
    pubkey BLOB(32) NOT NULL PRIMARY KEY,
    data_len INTEGER(8) NOT NULL,
    owner BLOB(32) NOT NULL,
    lamports INTEGER(8) NOT NULL,
    executable INTEGER(1) NOT NULL,
    rent_epoch INTEGER(8) NOT NULL
);");
    reveal_strlit("CREATE TABLE token_mint (
    pubkey TEXT(32) NOT NULL PRIMARY KEY,
    mint_authority BLOB(32) NULL,
    supply INTEGER(8) NOT NULL,
    decimals INTEGER(2) NOT NULL,
    is_initialized BOOL NOT NULL,
    freeze_authority BLOB(32) NULL
);");
    reveal_strlit("CREATE TABLE token_account (
    pubkey TEXT(32) NOT NULL PRIMARY KEY,
    mint TEXT(32) NOT NULL,
    owner TEXT(32) NOT NULL,
    amount INTEGER(8) NOT NULL,
    delegate TEXT(32),
    state INTEGER(1) NOT NULL,
    is_native INTEGER(8),
    delegated_amount INTEGER(8) NOT NULL,
    close_authority BLOB(32)
);");
    reveal_strlit("CREATE TABLE token_multisig (
    pubkey BLOB(32) NOT NULL,
    signer BLOB(32) NOT NULL,
    m INTEGER(2) NOT NULL,
    n INTEGER(2) NOT NULL,
    PRIMARY KEY (pubkey, signer)
);");
    reveal_strlit("CREATE TABLE token_metadata (
    pubkey TEXT(32) NOT NULL,
    mint TEXT(32) NOT NULL,
    name TEXT(32) NOT NULL,
    update_authority TEXT(32) NULL,
    creators TEXT NULL,
    symbol TEXT(10) NOT NULL,
    uri TEXT(200) NOT NULL,
    seller_fee_basis_points INTEGER(4) NOT NULL,
    primary_sale_happened INTEGER(1) NOT NULL,
    is_mutable INTEGER(1) NOT NULL,
    edition_nonce INTEGER(2) NULL,
    collection_verified INTEGER(1) NULL,
    collection_key BLOB(32) NULL
);");
    reveal_strlit("CREATE INDEX token_metadata_mint_idx ON token_metadata(mint);");
    reveal_strlit("CREATE INDEX token_account_mint_idx ON token_account(mint);");
    reveal_strlit("CREATE TABLE ");
    reveal_strlit("CREATE INDEX ");
    let lengths = seq![236nat, 239, 313, 179, 477, 61, 59];
    assert forall|i: int, j: int| 0 <= i < 7 && 0 <= j < 7 && i != j implies schema()[i]
        != schema()[j] by {
        assert(schema()[i].len() == lengths[i]);
        assert(schema()[j].len() == lengths[j]);
    }
}

/// The indexes find token accounts and metadata by the mint: each is on a column that the
/// table of its name has.
pub proof fn law_indexes_are_on_mints(table: Table)
    requires
        table == Table::TokenAccount || table == Table::TokenMetadata,
    ensures
        sql::column_names(table)[1] == "mint"@,
        plain_texts(create_db_plan())[if table == Table::TokenMetadata {
            5
        } else {
            6
        }] == "CREATE INDEX "@ + sql::table_name(table) + "_mint_idx ON "@ + sql::table_name(table)
            + "(mint);"@,
{
    law_new_databases_have_the_schema();
    reveal_strlit("CREATE INDEX token_metadata_mint_idx ON token_metadata(mint);");
    reveal_strlit("CREATE INDEX token_account_mint_idx ON token_account(mint);");
    reveal_strlit("CREATE INDEX ");
    reveal_strlit("token_account");
    reveal_strlit("token_metadata");
    reveal_strlit("_mint_idx ON ");
    reveal_strlit("(mint);");
    let text = "CREATE INDEX "@ + sql::table_name(table) + "_mint_idx ON "@ + sql::table_name(
        table,
    ) + "(mint);"@;
    if table == Table::TokenAccount {
        assert(text =~= schema()[6]);
    } else {
        assert(text =~= schema()[5]);
    }
}

/// The tables that are kept for other uses have these columns and keys.
pub proof fn law_other_tables()
    ensures
        plain_texts(create_db_plan())[0] == "CREATE TABLE account  (
    pubkey BLOB(32) NOT NULL PRIMARY KEY,
    data_len INTEGER(8) NOT NULL,
    owner BLOB(32) NOT NULL,
    lamports INTEGER(8) NOT NULL,
    executable INTEGER(1) NOT NULL,
    rent_epoch INTEGER(8) NOT NULL
);"@,
        plain_texts(create_db_plan())[3] == "CREATE TABLE token_multisig (
    pubkey BLOB(32) NOT NULL,
    signer BLOB(32) NOT NULL,
    m INTEGER(2) NOT NULL,
    n INTEGER(2) NOT NULL,
    PRIMARY KEY (pubkey, signer)
);"@,
{
    law_new_databases_have_the_schema();
}

} // verus!
