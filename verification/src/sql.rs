//! The statements that the index is made with.
use vstd::prelude::*;

use crate::value;
use crate::value::{Value, ValueView};

verus! {

/// A table that rows are collected for.
#[derive(Clone, Copy, Debug, PartialEq, Eq, Structural)]
pub enum Table {
    TokenMetadata,
    TokenMint,
    TokenAccount,
}

/// How many columns a row of a table has.
pub open spec fn columns(table: Table) -> nat {
    match table {
        Table::TokenMetadata => 13,
        Table::TokenMint => 6,
        Table::TokenAccount => 9,
    }
}

/// The statement that rows are inserted into a table with, up to the rows.
pub open spec fn insert_head(table: Table) -> Seq<char> {
    match table {
        Table::TokenMetadata => TOKEN_METADATA_HEAD@,
        Table::TokenMint => TOKEN_MINT_HEAD@,
        Table::TokenAccount => TOKEN_ACCOUNT_HEAD@,
    }
}

/// The statement that inserts metadata, up to the rows.
pub const TOKEN_METADATA_HEAD: &'static str = "INSERT OR REPLACE INTO token_metadata (
    pubkey,
    mint,
    name,
    update_authority,
    creators,
    symbol,
    uri,
    seller_fee_basis_points,
    primary_sale_happened,
    is_mutable,
    edition_nonce,
    collection_verified,
    collection_key
) VALUES ";

/// The statement that inserts mints, up to the rows.
pub const TOKEN_MINT_HEAD: &'static str = "INSERT OR REPLACE INTO token_mint (pubkey, mint_authority, supply, decimals, is_initialized, freeze_authority) VALUES ";

/// The statement that inserts token accounts, up to the rows.
pub const TOKEN_ACCOUNT_HEAD: &'static str = "INSERT OR REPLACE INTO token_account (pubkey, mint, owner, amount, delegate, state, is_native, delegated_amount, close_authority) VALUES ";

/// `n` placeholders, with commas between them.
pub open spec fn marks(n: nat) -> Seq<char>
    decreases n,
{
    if n == 0 {
        Seq::empty()
    } else if n == 1 {
        "?"@
    } else {
        marks((n - 1) as nat) + ", ?"@
    }
}

/// A row of `columns` placeholders.
pub open spec fn row_text(columns: nat) -> Seq<char> {
    " ("@ + marks(columns) + ")"@
}

/// `rows` rows of `columns` placeholders each, with commas between them.
pub open spec fn rows_text(columns: nat, rows: nat) -> Seq<char>
    decreases rows,
{
    if rows == 0 {
        Seq::empty()
    } else if rows == 1 {
        row_text(columns)
    } else {
        rows_text(columns, (rows - 1) as nat) + ","@ + row_text(columns)
    }
}

/// The text of the statement that inserts `rows` rows into a table.
pub open spec fn insert_text(table: Table, rows: nat) -> Seq<char> {
    insert_head(table) + rows_text(columns(table), rows)
}

/// A statement, with the values of its placeholders.
#[derive(Debug, PartialEq, Eq)]
pub struct Statement {
    pub sql: String,
    pub params: Vec<Value>,
}

/// What a [`Statement`] holds.
pub struct StatementView {
    pub sql: Seq<char>,
    pub params: Seq<ValueView>,
}

impl View for Statement {
    type V = StatementView;

    open spec fn view(&self) -> StatementView {
        StatementView { sql: self.sql@, params: value::values_view(self.params@) }
    }
}

/// The statement that inserts the rows that `params` are, one after the other.
pub open spec fn insert_statement(table: Table, params: Seq<ValueView>) -> StatementView {
    StatementView { sql: insert_text(table, params.len() / columns(table)), params }
}

/// Writes `n` placeholders.
fn write_marks(n: usize) -> (text: String)
    ensures
        text@ == marks(n as nat),
{
    let mut text = String::new();
    let mut i: usize = 0;
    while i < n
        invariant
            i <= n,
            text@ == marks(i as nat),
        decreases n - i,
    {
        if i == 0 {
            text.append("?");
            assert(text@ =~= "?"@);
        } else {
            text.append(", ?");
        }
        i += 1;
    }
    text
}

/// Writes the statement that inserts `rows` rows into a table.
pub fn write_insert(table: Table, rows: usize) -> (text: String)
    ensures
        text@ == insert_text(table, rows as nat),
{
    let (head, width): (&str, usize) = match table {
        Table::TokenMetadata => (TOKEN_METADATA_HEAD, 13),
        Table::TokenMint => (TOKEN_MINT_HEAD, 6),
        Table::TokenAccount => (TOKEN_ACCOUNT_HEAD, 9),
    };
    let placeholders = write_marks(width);
    let mut text = String::new();
    text.append(head);
    assert(text@ =~= insert_head(table) + rows_text(columns(table), 0));
    let mut i: usize = 0;
    while i < rows
        invariant
            i <= rows,
            placeholders@ == marks(columns(table)),
            text@ == insert_head(table) + rows_text(columns(table), i as nat),
        decreases rows - i,
    {
        if i > 0 {
            text.append(",");
        }
        text.append(" (");
        text.append(placeholders.as_str());
        text.append(")");
        i += 1;
        assert(text@ =~= insert_head(table) + rows_text(columns(table), i as nat));
    }
    text
}

/// How many placeholders a statement has.
pub open spec fn placeholders(sql: Seq<char>) -> nat
    decreases sql.len(),
{
    if sql.len() == 0 {
        0
    } else {
        placeholders(sql.drop_last()) + if sql.last() == '?' {
            1nat
        } else {
            0
        }
    }
}

proof fn lemma_placeholders_add(a: Seq<char>, b: Seq<char>)
    ensures
        placeholders(a + b) == placeholders(a) + placeholders(b),
    decreases b.len(),
{
    if b.len() == 0 {
        assert(a + b =~= a);
    } else {
        assert((a + b).drop_last() =~= a + b.drop_last());
        lemma_placeholders_add(a, b.drop_last());
    }
}

proof fn lemma_no_placeholders(s: Seq<char>)
    requires
        forall|i: int| 0 <= i < s.len() ==> s[i] != '?',
    ensures
        placeholders(s) == 0,
    decreases s.len(),
{
    if s.len() > 0 {
        lemma_no_placeholders(s.drop_last());
    }
}

proof fn lemma_marks(n: nat)
    ensures
        placeholders(marks(n)) == n,
    decreases n,
{
    reveal_with_fuel(placeholders, 4);
    if n == 1 {
        reveal_strlit("?");
    } else if n > 1 {
        reveal_strlit(", ?");
        lemma_marks((n - 1) as nat);
        lemma_placeholders_add(marks((n - 1) as nat), ", ?"@);
    }
}

proof fn lemma_row(columns: nat)
    ensures
        placeholders(row_text(columns)) == columns,
{
    reveal_strlit(" (");
    reveal_strlit(")");
    lemma_marks(columns);
    lemma_no_placeholders(" ("@);
    lemma_no_placeholders(")"@);
    lemma_placeholders_add(" ("@, marks(columns));
    lemma_placeholders_add(" ("@ + marks(columns), ")"@);
}

proof fn lemma_rows(columns: nat, rows: nat)
    ensures
        placeholders(rows_text(columns, rows)) == columns * rows,
    decreases rows,
{
    lemma_row(columns);
    assert(columns * 0 == 0 && columns * 1 == columns) by (nonlinear_arith);
    if rows > 1 {
        let before = rows_text(columns, (rows - 1) as nat);
        reveal_strlit(",");
        lemma_rows(columns, (rows - 1) as nat);
        lemma_no_placeholders(","@);
        lemma_placeholders_add(before, ","@);
        lemma_placeholders_add(before + ","@, row_text(columns));
        assert(columns * rows == columns * (rows - 1) + columns) by (nonlinear_arith)
            requires
                rows >= 1,
        ;
    }
}

/// What the beginnings of the statements hold: no placeholder, and each its own letter in
/// one place, behind the start that they share.
proof fn lemma_heads(table: Table)
    ensures
        insert_head(table).len() > 30,
        insert_head(table)[30] == (match table {
            Table::TokenMetadata => 'e',
            Table::TokenMint => 'i',
            Table::TokenAccount => 'c',
        }),
        forall|i: int| 0 <= i < insert_head(table).len() ==> insert_head(table)[i] != '?',
{
    reveal_strlit("INSERT OR REPLACE INTO token_metadata (
    pubkey,
    mint,
    name,
    update_authority,
    creators,
    symbol,
    uri,
    seller_fee_basis_points,
    primary_sale_happened,
    is_mutable,
    edition_nonce,
    collection_verified,
    collection_key
) VALUES ");
    reveal_strlit("INSERT OR REPLACE INTO token_mint (pubkey, mint_authority, supply, decimals, is_initialized, freeze_authority) VALUES ");
    reveal_strlit("INSERT OR REPLACE INTO token_account (pubkey, mint, owner, amount, delegate, state, is_native, delegated_amount, close_authority) VALUES ");
}

/// The statements of two tables begin differently.
pub proof fn lemma_heads_differ(a: Table, b: Table)
    requires
        a != b,
    ensures
        insert_head(a).len() > 30,
        insert_head(b).len() > 30,
        insert_head(a)[30] != insert_head(b)[30],
{
    lemma_heads(a);
    lemma_heads(b);
}

/// A statement that inserts `rows` rows has a placeholder for each cell of each row.
pub proof fn law_placeholders(table: Table, rows: nat)
    ensures
        placeholders(insert_text(table, rows)) == columns(table) * rows,
{
    lemma_heads(table);
    lemma_no_placeholders(insert_head(table));
    lemma_rows(columns(table), rows);
    lemma_placeholders_add(insert_head(table), rows_text(columns(table), rows));
}

/// The name of a table.
pub open spec fn table_name(table: Table) -> Seq<char> {
    match table {
        Table::TokenMetadata => "token_metadata"@,
        Table::TokenMint => "token_mint"@,
        Table::TokenAccount => "token_account"@,
    }
}

/// The names of the columns of a table, in the order of the cells of a row.
pub open spec fn column_names(table: Table) -> Seq<Seq<char>> {
    match table {
        Table::TokenMetadata => seq![
            "pubkey"@,
            "mint"@,
            "name"@,
            "update_authority"@,
            "creators"@,
            "symbol"@,
            "uri"@,
            "seller_fee_basis_points"@,
            "primary_sale_happened"@,
            "is_mutable"@,
            "edition_nonce"@,
            "collection_verified"@,
            "collection_key"@,
        ],
        Table::TokenMint => seq![
            "pubkey"@,
            "mint_authority"@,
            "supply"@,
            "decimals"@,
            "is_initialized"@,
            "freeze_authority"@,
        ],
        Table::TokenAccount => seq![
            "pubkey"@,
            "mint"@,
            "owner"@,
            "amount"@,
            "delegate"@,
            "state"@,
            "is_native"@,
            "delegated_amount"@,
            "close_authority"@,
        ],
    }
}

/// Texts with a separator between them.
pub open spec fn joined(items: Seq<Seq<char>>, separator: Seq<char>) -> Seq<char>
    decreases items.len(),
{
    if items.len() == 0 {
        Seq::empty()
    } else if items.len() == 1 {
        items[0]
    } else {
        joined(items.drop_last(), separator) + separator + items.last()
    }
}

pub(crate) proof fn lemma_joined_start(items: Seq<Seq<char>>, separator: Seq<char>)
    requires
        items.len() > 0,
    ensures
        joined(items.take(1), separator) == items[0],
{
    assert(items.take(1)[0] == items[0]);
}

pub(crate) proof fn lemma_joined_next(items: Seq<Seq<char>>, k: int, separator: Seq<char>)
    requires
        1 <= k < items.len(),
    ensures
        joined(items.take(k + 1), separator) == joined(items.take(k), separator) + separator
            + items[k],
{
    assert(items.take(k + 1).drop_last() =~= items.take(k));
    assert(items.take(k + 1).last() == items[k]);
}

proof fn lemma_token_mint_head()
    ensures
        insert_head(Table::TokenMint) == "INSERT OR REPLACE INTO "@ + table_name(Table::TokenMint) + " ("@ + joined(
            column_names(Table::TokenMint),
            ", "@,
        ) + ") VALUES "@,
{
    let names = column_names(Table::TokenMint);
    lemma_joined_start(names, ", "@);
    lemma_joined_next(names, 1, ", "@);
    lemma_joined_next(names, 2, ", "@);
    lemma_joined_next(names, 3, ", "@);
    lemma_joined_next(names, 4, ", "@);
    lemma_joined_next(names, 5, ", "@);
    assert(names.take(6) =~= names);
    reveal_strlit("INSERT OR REPLACE INTO token_mint (pubkey, mint_authority, supply, decimals, is_initialized, freeze_authority) VALUES ");
    reveal_strlit("INSERT OR REPLACE INTO ");
    reveal_strlit("token_mint");
    reveal_strlit(" (");
    reveal_strlit(", ");
    reveal_strlit(") VALUES ");
    reveal_strlit("pubkey");
    reveal_strlit("mint_authority");
    reveal_strlit("supply");
    reveal_strlit("decimals");
    reveal_strlit("is_initialized");
    reveal_strlit("freeze_authority");
}

proof fn lemma_token_account_head()
    ensures
        insert_head(Table::TokenAccount) == "INSERT OR REPLACE INTO "@ + table_name(Table::TokenAccount) + " ("@ + joined(
            column_names(Table::TokenAccount),
            ", "@,
        ) + ") VALUES "@,
{
    let names = column_names(Table::TokenAccount);
    lemma_joined_start(names, ", "@);
    lemma_joined_next(names, 1, ", "@);
    lemma_joined_next(names, 2, ", "@);
    lemma_joined_next(names, 3, ", "@);
    lemma_joined_next(names, 4, ", "@);
    lemma_joined_next(names, 5, ", "@);
    lemma_joined_next(names, 6, ", "@);
    lemma_joined_next(names, 7, ", "@);
    lemma_joined_next(names, 8, ", "@);
    assert(names.take(9) =~= names);
    reveal_strlit("INSERT OR REPLACE INTO token_account (pubkey, mint, owner, amount, delegate, state, is_native, delegated_amount, close_authority) VALUES ");
    reveal_strlit("INSERT OR REPLACE INTO ");
    reveal_strlit("token_account");
    reveal_strlit(" (");
    reveal_strlit(", ");
    reveal_strlit(") VALUES ");
    reveal_strlit("pubkey");
    reveal_strlit("mint");
    reveal_strlit("owner");
    reveal_strlit("amount");
    reveal_strlit("delegate");
    reveal_strlit("state");
    reveal_strlit("is_native");
    reveal_strlit("delegated_amount");
    reveal_strlit("close_authority");
}

proof fn lemma_token_metadata_head()
    ensures
        insert_head(Table::TokenMetadata) == "INSERT OR REPLACE INTO "@ + table_name(Table::TokenMetadata) + " (\n    "@ + joined(
            column_names(Table::TokenMetadata),
            ",\n    "@,
        ) + "\n) VALUES "@,
{
    let names = column_names(Table::TokenMetadata);
    lemma_joined_start(names, ",\n    "@);
    lemma_joined_next(names, 1, ",\n    "@);
    lemma_joined_next(names, 2, ",\n    "@);
    lemma_joined_next(names, 3, ",\n    "@);
    lemma_joined_next(names, 4, ",\n    "@);
    lemma_joined_next(names, 5, ",\n    "@);
    lemma_joined_next(names, 6, ",\n    "@);
    lemma_joined_next(names, 7, ",\n    "@);
    lemma_joined_next(names, 8, ",\n    "@);
    lemma_joined_next(names, 9, ",\n    "@);
    lemma_joined_next(names, 10, ",\n    "@);
    lemma_joined_next(names, 11, ",\n    "@);
    lemma_joined_next(names, 12, ",\n    "@);
    assert(names.take(13) =~= names);
    reveal_strlit("INSERT OR REPLACE INTO token_metadata (
    pubkey,
    mint,
    name,
    update_authority,
    creators,
    symbol,
    uri,
    seller_fee_basis_points,
    primary_sale_happened,
    is_mutable,
    edition_nonce,
    collection_verified,
    collection_key
) VALUES ");
    reveal_strlit("INSERT OR REPLACE INTO ");
    reveal_strlit("token_metadata");
    reveal_strlit(" (\n    ");
    reveal_strlit(",\n    ");
    reveal_strlit("\n) VALUES ");
    reveal_strlit("pubkey");
    reveal_strlit("mint");
    reveal_strlit("name");
    reveal_strlit("update_authority");
    reveal_strlit("creators");
    reveal_strlit("symbol");
    reveal_strlit("uri");
    reveal_strlit("seller_fee_basis_points");
    reveal_strlit("primary_sale_happened");
    reveal_strlit("is_mutable");
    reveal_strlit("edition_nonce");
    reveal_strlit("collection_verified");
    reveal_strlit("collection_key");
}

/// Rows are inserted into the table of their name, replacing rows with the same key, and each
/// cell goes to the column of its place: the statement names all columns, in order.
pub proof fn law_inserts_name_their_columns(table: Table)
    ensures
        columns(table) == column_names(table).len(),
        table != Table::TokenMetadata ==> insert_head(table) == "INSERT OR REPLACE INTO "@
            + table_name(table) + " ("@ + joined(column_names(table), ", "@) + ") VALUES "@,
        table == Table::TokenMetadata ==> insert_head(table) == "INSERT OR REPLACE INTO "@
            + table_name(table) + " (\n    "@ + joined(column_names(table), ",\n    "@)
            + "\n) VALUES "@,
{
    match table {
        Table::TokenMetadata => lemma_token_metadata_head(),
        Table::TokenMint => lemma_token_mint_head(),
        Table::TokenAccount => lemma_token_account_head(),
    }
}

/// A text, `n` times.
pub open spec fn copies(text: Seq<char>, n: nat) -> Seq<Seq<char>> {
    Seq::new(n, |i: int| text)
}

proof fn lemma_copies(text: Seq<char>, n: nat, separator: Seq<char>)
    requires
        n > 1,
    ensures
        joined(copies(text, n), separator) == joined(copies(text, (n - 1) as nat), separator)
            + separator + text,
{
    assert(copies(text, n).drop_last() =~= copies(text, (n - 1) as nat));
}

proof fn lemma_marks_are_joined(n: nat)
    ensures
        marks(n) == joined(copies("?"@, n), ", "@),
    decreases n,
{
    if n > 1 {
        lemma_marks_are_joined((n - 1) as nat);
        lemma_copies("?"@, n, ", "@);
        reveal_strlit("?");
        reveal_strlit(", ");
        reveal_strlit(", ?");
        assert(", "@ + "?"@ =~= ", ?"@);
        assert(marks(n) =~= joined(copies("?"@, n), ", "@));
    }
}

proof fn lemma_rows_are_joined(columns: nat, rows: nat)
    ensures
        rows_text(columns, rows) == joined(copies(row_text(columns), rows), ","@),
    decreases rows,
{
    if rows > 1 {
        lemma_rows_are_joined(columns, (rows - 1) as nat);
        lemma_copies(row_text(columns), rows, ","@);
    }
}

/// The statement that inserts rows has a group of placeholders for each row, one for each
/// column, and keeps the cells as they are.
pub proof fn law_insert_statements(table: Table, params: Seq<ValueView>)
    ensures
        insert_statement(table, params).params == params,
        insert_statement(table, params).sql == insert_head(table) + joined(
            copies(
                " ("@ + joined(copies("?"@, column_names(table).len()), ", "@) + ")"@,
                params.len() / column_names(table).len(),
            ),
            ","@,
        ),
{
    lemma_marks_are_joined(columns(table));
    lemma_rows_are_joined(columns(table), params.len() / columns(table));
}

} // verus!
