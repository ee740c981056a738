//! What indexing means: which row an account becomes, and what is done with it.
use vstd::prelude::*;

use crate::account::StoredAccountView;
use crate::action::{ActionView, Counter};
use crate::base58;
use crate::decimal;
use crate::error::IndexErrorView;
use crate::mpl_metadata;
use crate::mpl_metadata::{AccountKey, MetadataExt, MetadataExtV1_2View};
use crate::progress;
use crate::rows;
use crate::sql;
use crate::sql::Table;
use crate::token;
use crate::token::TokenKind;
use crate::value::ValueView;

verus! {

/// A row, and the table it belongs to.
pub struct Row {
    pub table: Table,
    pub cells: Seq<ValueView>,
}

/// The row of an account of the token program: a token account that has been initialized,
/// or a mint with a supply of one.
pub open spec fn token_row(account: StoredAccountView) -> Option<Row> {
    match token::kind_of_len(account.data_len) {
        TokenKind::Account => match token::token_account_of(account.data) {
            Some(t) => Some(
                Row {
                    table: Table::TokenAccount,
                    cells: rows::token_account_row(account.pubkey, t),
                },
            ),
            None => None,
        },
        TokenKind::Mint => match token::mint_of(account.data) {
            Some(m) if m.supply == 1 => Some(
                Row { table: Table::TokenMint, cells: rows::token_mint_row(account.pubkey, m) },
            ),
            _ => None,
        },
        _ => None,
    }
}

/// The extensions that stand in front of `data`. There is no second one without a first.
pub open spec fn extensions(data: Seq<u8>) -> (Option<MetadataExt>, Option<MetadataExtV1_2View>) {
    match mpl_metadata::metadata_ext(data) {
        Some((first, rest)) => (
            Some(first),
            match mpl_metadata::metadata_ext_v1_2(rest) {
                Some((second, _)) => Some(second),
                None => None,
            },
        ),
        None => (None, None),
    }
}

/// The row of an account of the token metadata program, if it holds metadata.
pub open spec fn metadata_row(account: StoredAccountView) -> Result<Option<Row>, IndexErrorView> {
    match mpl_metadata::account_key(account.data) {
        Some((AccountKey::MetadataV1, data)) => match mpl_metadata::metadata_fields(data) {
            Ok((meta, rest)) => Ok(
                Some(
                    Row {
                        table: Table::TokenMetadata,
                        cells: rows::token_metadata_row(
                            account.pubkey,
                            meta,
                            extensions(rest).0,
                            extensions(rest).1,
                        ),
                    },
                ),
            ),
            Err(cause) => Err(IndexErrorView::InvalidMetadata { pubkey: account.pubkey, cause }),
        },
        _ => Ok(None),
    }
}

/// The row of an account, if it becomes one.
pub open spec fn account_row(account: StoredAccountView) -> Result<Option<Row>, IndexErrorView> {
    if account.owner == token::token_program() {
        Ok(token_row(account))
    } else if account.owner == mpl_metadata::metadata_program() {
        metadata_row(account)
    } else {
        Ok(None)
    }
}

/// How far the index is: the counts, and the cells of the rows that wait to be inserted.
pub struct IndexState {
    pub accounts: u64,
    pub token_accounts: u64,
    pub metaplex_accounts: u64,
    /// How many rows are inserted at once.
    pub batch_size: int,
    pub token_metadata: Seq<ValueView>,
    pub token_mint: Seq<ValueView>,
    pub token_account: Seq<ValueView>,
}

/// A state, and what has to be done to get there.
pub type Step = (IndexState, Seq<ActionView>);

/// The cells that wait for a table, row after row.
pub open spec fn pending(state: IndexState, table: Table) -> Seq<ValueView> {
    match table {
        Table::TokenMetadata => state.token_metadata,
        Table::TokenMint => state.token_mint,
        Table::TokenAccount => state.token_account,
    }
}

/// The state with other cells waiting for a table.
pub open spec fn with_pending(
    state: IndexState,
    table: Table,
    cells: Seq<ValueView>,
) -> IndexState {
    match table {
        Table::TokenMetadata => IndexState { token_metadata: cells, ..state },
        Table::TokenMint => IndexState { token_mint: cells, ..state },
        Table::TokenAccount => IndexState { token_account: cells, ..state },
    }
}

/// How many rows wait for a table.
pub open spec fn pending_rows(state: IndexState, table: Table) -> nat {
    pending(state, table).len() / sql::columns(table)
}

/// Whether whole rows wait for a table, and fewer than a batch.
pub open spec fn valid_pending(state: IndexState, table: Table) -> bool {
    &&& pending(state, table).len() % sql::columns(table) == 0
    &&& pending_rows(state, table) < state.batch_size
}

/// Whether whole rows wait for each table, and fewer than a batch.
pub open spec fn valid(state: IndexState) -> bool {
    &&& valid_pending(state, Table::TokenMetadata)
    &&& valid_pending(state, Table::TokenMint)
    &&& valid_pending(state, Table::TokenAccount)
}

/// Whether no row waits for any table.
pub open spec fn nothing_waits(state: IndexState) -> bool {
    &&& pending(state, Table::TokenMetadata).len() == 0
    &&& pending(state, Table::TokenMint).len() == 0
    &&& pending(state, Table::TokenAccount).len() == 0
}

/// Inserts what waits for a table.
pub open spec fn insert_pending(state: IndexState, table: Table) -> Step {
    (
        with_pending(state, table, Seq::empty()),
        seq![ActionView::Execute(sql::insert_statement(table, pending(state, table)))],
    )
}

/// Lets a row wait with the others of its table, and inserts them all when they are as many
/// as are inserted at once.
pub open spec fn add_row(state: IndexState, row: Row) -> Step {
    let added = with_pending(state, row.table, pending(state, row.table) + row.cells);
    if pending_rows(added, row.table) == state.batch_size {
        insert_pending(added, row.table)
    } else {
        (added, Seq::empty())
    }
}

/// Lets a row wait, if there is one.
pub open spec fn add_optional_row(state: IndexState, row: Option<Row>) -> Step {
    match row {
        Some(r) => add_row(state, r),
        None => (state, Seq::empty()),
    }
}

/// The count of a counter.
pub open spec fn count_of(state: IndexState, counter: Counter) -> u64 {
    match counter {
        Counter::Accounts => state.accounts,
        Counter::TokenAccounts => state.token_accounts,
        Counter::MetaplexAccounts => state.metaplex_accounts,
    }
}

/// Counts on, and moves the progress bar where that is due.
pub open spec fn count(state: IndexState, counter: Counter) -> Step {
    let n = count_of(state, counter);
    let next = progress::next_count(n);
    (
        match counter {
            Counter::Accounts => IndexState { accounts: next, ..state },
            Counter::TokenAccounts => IndexState { token_accounts: next, ..state },
            Counter::MetaplexAccounts => IndexState { metaplex_accounts: next, ..state },
        },
        match progress::told_position(n) {
            Some(position) => seq![ActionView::SetPosition(counter, position)],
            None => Seq::empty(),
        },
    )
}

/// A step that is followed by a count.
pub open spec fn then_count(step: Step, counter: Counter) -> Step {
    let (state, actions) = count(step.0, counter);
    (state, step.1 + actions)
}

/// The warning about an account of the token program whose size is unexpected.
pub open spec fn size_warning(account: StoredAccountView) -> Seq<char> {
    "Token program account "@ + base58::base58(account.pubkey) + " has unexpected size "@
        + decimal::decimal(account.data_len as nat)
}

/// Indexes an account of the token program. One with an unexpected size is warned of and
/// passed over.
pub open spec fn token_step(state: IndexState, account: StoredAccountView) -> Step {
    if token::kind_of_len(account.data_len) == TokenKind::Unexpected {
        (state, seq![ActionView::Warn(size_warning(account))])
    } else {
        then_count(add_optional_row(state, token_row(account)), Counter::TokenAccounts)
    }
}

/// Indexes an account of the token metadata program that becomes `row`. One that becomes no
/// row is passed over.
pub open spec fn metadata_step(state: IndexState, row: Option<Row>) -> Step {
    match row {
        Some(r) => then_count(add_row(state, r), Counter::MetaplexAccounts),
        None => (state, Seq::empty()),
    }
}

/// Indexes an account.
pub open spec fn account_step(state: IndexState, account: StoredAccountView) -> Result<
    Step,
    IndexErrorView,
> {
    if account.owner == token::token_program() {
        Ok(then_count(token_step(state, account), Counter::Accounts))
    } else if account.owner == mpl_metadata::metadata_program() {
        match metadata_row(account) {
            Ok(row) => Ok(then_count(metadata_step(state, row), Counter::Accounts)),
            Err(e) => Err(e),
        }
    } else {
        Ok(count(state, Counter::Accounts))
    }
}

/// [`account_step`], as a whole: runs are reasoned about without looking into it.
#[verifier::opaque]
pub open spec fn whole_step(state: IndexState, account: StoredAccountView) -> Result<
    Step,
    IndexErrorView,
> {
    account_step(state, account)
}

/// How indexing several accounts ends: the state, what has to be done to get there, and the
/// error that stopped it, if one did.
pub struct Run {
    pub state: IndexState,
    pub actions: Seq<ActionView>,
    pub error: Option<IndexErrorView>,
}

/// Indexes accounts in order, up to the first that cannot be indexed.
pub open spec fn run(state: IndexState, accounts: Seq<StoredAccountView>) -> Run
    decreases accounts.len(),
{
    if accounts.len() == 0 {
        Run { state, actions: Seq::empty(), error: None }
    } else {
        let before = run(state, accounts.drop_last());
        if before.error is Some {
            before
        } else {
            match whole_step(before.state, accounts.last()) {
                Ok((next, actions)) => Run {
                    state: next,
                    actions: before.actions + actions,
                    error: None,
                },
                Err(e) => Run { error: Some(e), ..before },
            }
        }
    }
}

/// Inserts what waits for a table, if anything does.
pub open spec fn flush(state: IndexState, table: Table) -> Step {
    if pending_rows(state, table) > 0 {
        insert_pending(state, table)
    } else {
        (state, Seq::empty())
    }
}

/// Makes the database read-only.
pub open spec fn seal() -> ActionView {
    ActionView::Pragma("query_only"@, ValueView::Integer(1))
}

/// Inserts all that still waits, and makes the database read-only.
pub open spec fn finish(state: IndexState) -> Step {
    let (s1, a1) = flush(state, Table::TokenMetadata);
    let (s2, a2) = flush(s1, Table::TokenMint);
    let (s3, a3) = flush(s2, Table::TokenAccount);
    (s3, a1 + a2 + a3 + seq![seal()])
}

/// The state before the first account.
pub open spec fn start(batch_size: int) -> IndexState {
    IndexState {
        accounts: 0,
        token_accounts: 0,
        metaplex_accounts: 0,
        batch_size,
        token_metadata: Seq::empty(),
        token_mint: Seq::empty(),
        token_account: Seq::empty(),
    }
}

/// The token program and the token metadata program have different addresses.
pub proof fn lemma_programs_differ()
    ensures
        token::token_program() != mpl_metadata::metadata_program(),
{
    assert(token::token_program()[0] == 6);
    assert(mpl_metadata::metadata_program()[0] == 11);
}

/// What one account more does to a run.
pub proof fn lemma_run_next(state: IndexState, accounts: Seq<StoredAccountView>, i: int)
    requires
        0 <= i < accounts.len(),
        run(state, accounts.take(i)).error is None,
    ensures
        ({
            let before = run(state, accounts.take(i));
            run(state, accounts.take(i + 1)) == match whole_step(before.state, accounts[i]) {
                Ok((next, actions)) => Run {
                    state: next,
                    actions: before.actions + actions,
                    error: None,
                },
                Err(e) => Run { error: Some(e), ..before },
            }
        }),
{
    assert(accounts.take(i + 1).drop_last() =~= accounts.take(i));
    assert(accounts.take(i + 1).last() == accounts[i]);
}

/// Once an account has stopped the indexing, the accounts behind it are not looked at.
pub proof fn lemma_run_stops(state: IndexState, accounts: Seq<StoredAccountView>, n: int)
    requires
        0 <= n <= accounts.len(),
        run(state, accounts.take(n)).error is Some,
    ensures
        run(state, accounts) == run(state, accounts.take(n)),
    decreases accounts.len(),
{
    if n == accounts.len() {
        assert(accounts.take(n) =~= accounts);
    } else {
        assert(accounts.drop_last().take(n) =~= accounts.take(n));
        lemma_run_stops(state, accounts.drop_last(), n);
    }
}

} // verus!
