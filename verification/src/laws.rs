//! What holds of the index as a whole.
use vstd::prelude::*;

use crate::account::StoredAccountView;
use crate::action::{ActionView, Counter};
use crate::base58;
use crate::error::IndexErrorView;
use crate::index;
use crate::index::{IndexState, Row, Step};
use crate::mpl_metadata;
use crate::rows;
use crate::sql;
use crate::sql::{StatementView, Table};
use crate::token;
use crate::token::TokenKind;
use crate::value::ValueView;

verus! {

/// Whether a statement inserts into a table.
pub open spec fn inserts_into(statement: StatementView, table: Table) -> bool {
    sql::insert_head(table).is_prefix_of(statement.sql)
}

/// The cells that an action inserts into a table.
pub open spec fn inserted_by(action: ActionView, table: Table) -> Seq<ValueView> {
    match action {
        ActionView::Execute(statement) if inserts_into(statement, table) => statement.params,
        _ => Seq::empty(),
    }
}

/// The cells that actions insert into a table, in order.
pub open spec fn inserted(actions: Seq<ActionView>, table: Table) -> Seq<ValueView>
    decreases actions.len(),
{
    if actions.len() == 0 {
        Seq::empty()
    } else {
        inserted(actions.drop_last(), table) + inserted_by(actions.last(), table)
    }
}

/// The cells of the row of an account, if it has one for the table.
#[verifier::opaque]
pub open spec fn cells_for(account: StoredAccountView, table: Table) -> Seq<ValueView> {
    match index::account_row(account) {
        Ok(Some(row)) if row.table == table => row.cells,
        _ => Seq::empty(),
    }
}

/// The cells of the rows that accounts have for a table, in order.
pub open spec fn all_cells_for(accounts: Seq<StoredAccountView>, table: Table) -> Seq<ValueView>
    decreases accounts.len(),
{
    if accounts.len() == 0 {
        Seq::empty()
    } else {
        all_cells_for(accounts.drop_last(), table) + cells_for(accounts.last(), table)
    }
}

proof fn lemma_inserted_add(a: Seq<ActionView>, b: Seq<ActionView>, table: Table)
    ensures
        inserted(a + b, table) == inserted(a, table) + inserted(b, table),
    decreases b.len(),
{
    if b.len() == 0 {
        assert(a + b =~= a);
        assert(inserted(a, table) + inserted(b, table) =~= inserted(a, table));
    } else {
        assert((a + b).drop_last() =~= a + b.drop_last());
        lemma_inserted_add(a, b.drop_last(), table);
        assert(inserted(a + b, table) =~= inserted(a, table) + inserted(b, table));
    }
}

/// A statement made for a table inserts into that table and no other.
proof fn lemma_inserts_into(made_for: Table, params: Seq<ValueView>, table: Table)
    ensures
        inserts_into(sql::insert_statement(made_for, params), table) == (made_for == table),
{
    let text = sql::insert_statement(made_for, params).sql;
    assert(sql::insert_head(made_for).is_prefix_of(text));
    if made_for != table {
        sql::lemma_heads_differ(made_for, table);
        assert(text[30] == sql::insert_head(made_for)[30]);
    }
}

/// Whether a row fits its table and starts with the address of its account.
spec fn fits(row: Row, account: StoredAccountView) -> bool {
    &&& row.cells.len() == sql::columns(row.table)
    &&& row.cells[0] == rows::address_cell(account.pubkey)
}

proof fn lemma_token_row_fits(account: StoredAccountView)
    ensures
        index::token_row(account) matches Some(row) ==> fits(row, account),
{
}

proof fn lemma_metadata_row_fits(account: StoredAccountView)
    ensures
        index::metadata_row(account) matches Ok(Some(row)) ==> fits(row, account),
{
    if let Ok(Some(row)) = index::metadata_row(account) {
        let data = mpl_metadata::account_key(account.data).unwrap().1;
        let (meta, rest) = mpl_metadata::metadata_fields(data)->Ok_0;
        let (first, second) = index::extensions(rest);
        assert(row.cells == rows::token_metadata_row(account.pubkey, meta, first, second));
    }
}

/// The row of an account has as many cells as its table has columns.
pub proof fn law_rows_fit_their_tables(account: StoredAccountView)
    ensures
        index::account_row(account) matches Ok(Some(row)) ==> row.cells.len() == sql::columns(
            row.table,
        ),
{
    lemma_token_row_fits(account);
    lemma_metadata_row_fits(account);
}

/// Whether a statement inserts whole rows into a table: at least `least`, at most `most`.
pub open spec fn is_batch(statement: StatementView, table: Table, least: int, most: int) -> bool {
    let rows = statement.params.len() / sql::columns(table);
    &&& statement == sql::insert_statement(table, statement.params)
    &&& statement.params.len() == rows * sql::columns(table)
    &&& least <= rows <= most
}

/// Whether an action that runs a statement inserts a batch of rows into one of the tables.
pub open spec fn runs_only_batches(action: ActionView, least: int, most: int) -> bool {
    match action {
        ActionView::Execute(statement) => {
            ||| is_batch(statement, Table::TokenMetadata, least, most)
            ||| is_batch(statement, Table::TokenMint, least, most)
            ||| is_batch(statement, Table::TokenAccount, least, most)
        },
        _ => true,
    }
}

/// Whether all actions of a list run only batches.
pub open spec fn run_only_batches(actions: Seq<ActionView>, least: int, most: int) -> bool {
    forall|i: int|
        0 <= i < actions.len() ==> runs_only_batches(#[trigger] actions[i], least, most)
}

/// Whether all actions of a list run only full batches.
pub open spec fn run_only_full_batches(actions: Seq<ActionView>, batch_size: int) -> bool {
    run_only_batches(actions, batch_size, batch_size)
}

/// Whether actions insert nothing into a table, or one full batch.
spec fn inserts_at_most_a_batch(actions: Seq<ActionView>, table: Table, batch_size: int) -> bool {
    ||| inserted(actions, table).len() == 0
    ||| inserted(actions, table).len() == sql::columns(table) * batch_size
}

/// Whether a step from a state loses nothing: what waited for the table, with `cells` added,
/// is what has been inserted, followed by what waits.
pub open spec fn keeps_all(
    state: IndexState,
    cells: Seq<ValueView>,
    step: Step,
    table: Table,
) -> bool {
    index::pending(state, table) + cells == inserted(step.1, table) + index::pending(
        step.0,
        table,
    )
}

proof fn lemma_insert_pending(state: IndexState, made_for: Table, table: Table)
    ensures
        keeps_all(state, Seq::empty(), index::insert_pending(state, made_for), table),
        inserted(index::insert_pending(state, made_for).1, table) == if made_for == table {
            index::pending(state, table)
        } else {
            Seq::empty()
        },
{
    let step = index::insert_pending(state, made_for);
    let cells = index::pending(state, made_for);
    lemma_inserts_into(made_for, cells, table);
    assert(step.1.drop_last() =~= Seq::empty());
    assert(inserted(step.1, table) =~= inserted_by(step.1[0], table)) by {
        assert(inserted(Seq::empty(), table) =~= Seq::empty());
    }
    assert(index::pending(state, table) + Seq::<ValueView>::empty() =~= inserted(step.1, table)
        + index::pending(step.0, table));
}

proof fn lemma_batch(state: IndexState, table: Table, least: int, most: int)
    requires
        index::pending(state, table).len() % sql::columns(table) == 0,
        least <= index::pending_rows(state, table) <= most,
    ensures
        run_only_batches(index::insert_pending(state, table).1, least, most),
{
    let statement = sql::insert_statement(table, index::pending(state, table));
    assert(is_batch(statement, table, least, most));
}

proof fn lemma_whole_rows(n: nat, columns: nat)
    requires
        columns > 0,
        n % columns == 0,
    ensures
        n == columns * (n / columns),
{
    vstd::arithmetic::div_mod::lemma_fundamental_div_mod(n as int, columns as int);
}

proof fn lemma_one_more(n: nat, columns: nat)
    by (nonlinear_arith)
    requires
        columns > 0,
    ensures
        (n + columns) / columns == n / columns + 1,
        (n + columns) % columns == n % columns,
{
}

proof fn lemma_add_row(state: IndexState, row: Row, table: Table)
    requires
        index::valid(state),
        row.cells.len() == sql::columns(row.table),
    ensures
        index::valid(index::add_row(state, row).0),
        index::add_row(state, row).0.batch_size == state.batch_size,
        run_only_full_batches(index::add_row(state, row).1, state.batch_size),
        inserts_at_most_a_batch(index::add_row(state, row).1, table, state.batch_size),
        keeps_all(
            state,
            if row.table == table {
                row.cells
            } else {
                Seq::empty()
            },
            index::add_row(state, row),
            table,
        ),
{
    let waiting = index::pending(state, row.table);
    let added = index::with_pending(state, row.table, waiting + row.cells);
    assert((waiting + row.cells).len() == waiting.len() + sql::columns(row.table));
    lemma_one_more(waiting.len(), sql::columns(row.table));
    assert(index::pending_rows(added, row.table) == index::pending_rows(state, row.table) + 1) by {
        assert(index::pending(added, row.table) =~= waiting + row.cells);
    }
    let step = index::add_row(state, row);
    let cells = if row.table == table {
        row.cells
    } else {
        Seq::empty()
    };
    assert(index::pending(added, table) =~= index::pending(state, table) + cells);
    assert(index::pending(added, table) + Seq::<ValueView>::empty() =~= index::pending(
        added,
        table,
    ));
    if index::pending_rows(added, row.table) == state.batch_size {
        lemma_insert_pending(added, row.table, table);
        lemma_batch(added, row.table, state.batch_size, state.batch_size);
        lemma_whole_rows(index::pending(added, row.table).len(), sql::columns(row.table));
    } else {
        assert(inserted(step.1, table) + index::pending(step.0, table) =~= index::pending(
            step.0,
            table,
        ));
    }
}

proof fn lemma_count(state: IndexState, counter: Counter, table: Table)
    ensures
        index::valid(state) ==> index::valid(index::count(state, counter).0),
        index::count(state, counter).0.batch_size == state.batch_size,
        run_only_full_batches(index::count(state, counter).1, state.batch_size),
        index::pending(index::count(state, counter).0, table) == index::pending(state, table),
        inserted(index::count(state, counter).1, table) == Seq::<ValueView>::empty(),
{
    let step = index::count(state, counter);
    reveal_with_fuel(inserted, 2);
    assert(inserted(step.1, table) =~= Seq::empty());
}

proof fn lemma_then_count(
    state: IndexState,
    cells: Seq<ValueView>,
    step: Step,
    counter: Counter,
    table: Table,
)
    requires
        index::valid(step.0),
        step.0.batch_size == state.batch_size,
        run_only_full_batches(step.1, state.batch_size),
        inserts_at_most_a_batch(step.1, table, state.batch_size),
        keeps_all(state, cells, step, table),
    ensures
        index::valid(index::then_count(step, counter).0),
        index::then_count(step, counter).0.batch_size == state.batch_size,
        run_only_full_batches(index::then_count(step, counter).1, state.batch_size),
        inserts_at_most_a_batch(index::then_count(step, counter).1, table, state.batch_size),
        keeps_all(state, cells, index::then_count(step, counter), table),
{
    let (next, actions) = index::count(step.0, counter);
    lemma_count(step.0, counter, table);
    lemma_inserted_add(step.1, actions, table);
    assert(inserted(step.1, table) + Seq::<ValueView>::empty() =~= inserted(step.1, table));
}

/// A step that does nothing, or only warns, keeps everything.
proof fn lemma_no_row(state: IndexState, warnings: Seq<ActionView>, table: Table)
    requires
        forall|i: int| 0 <= i < warnings.len() ==> #[trigger] warnings[i] is Warn,
    ensures
        inserted(warnings, table) == Seq::<ValueView>::empty(),
        keeps_all(state, Seq::empty(), (state, warnings), table),
    decreases warnings.len(),
{
    if warnings.len() > 0 {
        let before = warnings.drop_last();
        assert forall|i: int| 0 <= i < before.len() implies #[trigger] before[i] is Warn by {
            assert(before[i] == warnings[i]);
        }
        assert(warnings[warnings.len() - 1] is Warn);
        lemma_no_row(state, before, table);
        assert(inserted(warnings, table) =~= Seq::empty());
    }
    assert(index::pending(state, table) + Seq::<ValueView>::empty() =~= inserted(warnings, table)
        + index::pending(state, table));
}

proof fn lemma_account_step(state: IndexState, account: StoredAccountView, table: Table)
    requires
        index::valid(state),
        index::whole_step(state, account) is Ok,
    ensures
        ({
            let step = index::whole_step(state, account)->Ok_0;
            &&& index::valid(step.0)
            &&& step.0.batch_size == state.batch_size
            &&& run_only_full_batches(step.1, state.batch_size)
            &&& inserts_at_most_a_batch(step.1, table, state.batch_size)
            &&& keeps_all(state, cells_for(account, table), step, table)
        }),
{
    reveal(index::whole_step);
    reveal(cells_for);
    law_rows_fit_their_tables(account);
    let cells = cells_for(account, table);
    lemma_no_row(state, Seq::empty(), table);
    lemma_no_row(state, seq![ActionView::Warn(index::size_warning(account))], table);
    if let Ok(Some(row)) = index::account_row(account) {
        lemma_add_row(state, row, table);
    }
    if account.owner == token::token_program() {
        let added = index::add_optional_row(state, index::token_row(account));
        lemma_then_count(state, cells, added, Counter::TokenAccounts, table);
        let step = index::token_step(state, account);
        lemma_then_count(state, cells, step, Counter::Accounts, table);
    } else if account.owner == mpl_metadata::metadata_program() {
        let row = index::metadata_row(account)->Ok_0;
        if let Some(r) = row {
            lemma_then_count(
                state,
                cells,
                index::add_row(state, r),
                Counter::MetaplexAccounts,
                table,
            );
        }
        let step = index::metadata_step(state, row);
        lemma_then_count(state, cells, step, Counter::Accounts, table);
    } else {
        lemma_count(state, Counter::Accounts, table);
    }
}

/// However the accounts are, whole rows wait for each table, and fewer than a batch, and
/// only full batches of whole rows have been inserted.
pub proof fn law_only_full_batches_are_inserted(state: IndexState, accounts: Seq<StoredAccountView>)
    requires
        index::valid(state),
    ensures
        index::valid(index::run(state, accounts).state),
        index::run(state, accounts).state.batch_size == state.batch_size,
        run_only_full_batches(index::run(state, accounts).actions, state.batch_size),
    decreases accounts.len(),
{
    if accounts.len() > 0 {
        law_only_full_batches_are_inserted(state, accounts.drop_last());
        let before = index::run(state, accounts.drop_last());
        if before.error is None && index::whole_step(before.state, accounts.last()) is Ok {
            lemma_account_step(before.state, accounts.last(), Table::TokenAccount);
        }
    }
}

proof fn lemma_regroup(
    waited: Seq<ValueView>,
    old_cells: Seq<ValueView>,
    new_cells: Seq<ValueView>,
    done: Seq<ValueView>,
    waits: Seq<ValueView>,
    done_now: Seq<ValueView>,
    waits_now: Seq<ValueView>,
)
    requires
        waited + old_cells == done + waits,
        waits + new_cells == done_now + waits_now,
    ensures
        waited + (old_cells + new_cells) == (done + done_now) + waits_now,
{
    assert(waited + (old_cells + new_cells) =~= (waited + old_cells) + new_cells);
    assert((done + waits) + new_cells =~= done + (waits + new_cells));
    assert(done + (done_now + waits_now) =~= (done + done_now) + waits_now);
}

/// Where no account stops the indexing, no row is lost, doubled or put before another: what
/// waited for a table, followed by the rows of the accounts, is what has been inserted into
/// it, followed by what waits.
pub proof fn law_no_row_is_lost(
    state: IndexState,
    accounts: Seq<StoredAccountView>,
    table: Table,
)
    requires
        index::valid(state),
        index::run(state, accounts).error is None,
    ensures
        index::pending(state, table) + all_cells_for(accounts, table) == inserted(
            index::run(state, accounts).actions,
            table,
        ) + index::pending(index::run(state, accounts).state, table),
    decreases accounts.len(),
{
    let after = index::run(state, accounts);
    if accounts.len() == 0 {
        lemma_no_row(state, Seq::empty(), table);
    } else {
        let before = index::run(state, accounts.drop_last());
        law_no_row_is_lost(state, accounts.drop_last(), table);
        law_only_full_batches_are_inserted(state, accounts.drop_last());
        lemma_account_step(before.state, accounts.last(), table);
        let step = index::whole_step(before.state, accounts.last())->Ok_0;
        lemma_inserted_add(before.actions, step.1, table);
        lemma_regroup(
            index::pending(state, table),
            all_cells_for(accounts.drop_last(), table),
            cells_for(accounts.last(), table),
            inserted(before.actions, table),
            index::pending(before.state, table),
            inserted(step.1, table),
            index::pending(step.0, table),
        );
    }
}

proof fn lemma_flush(state: IndexState, made_for: Table, table: Table)
    requires
        index::valid(state),
    ensures
        index::valid(index::flush(state, made_for).0),
        index::flush(state, made_for).0.batch_size == state.batch_size,
        run_only_batches(index::flush(state, made_for).1, 1, state.batch_size),
        keeps_all(state, Seq::empty(), index::flush(state, made_for), table),
        index::pending(index::flush(state, made_for).0, made_for).len() == 0,
        made_for != table ==> index::pending(index::flush(state, made_for).0, table)
            == index::pending(state, table),
{
    lemma_no_row(state, Seq::empty(), table);
    if index::pending_rows(state, made_for) > 0 {
        lemma_insert_pending(state, made_for, table);
        lemma_batch(state, made_for, 1, state.batch_size);
    }
}

/// Finishing inserts all that waits, in batches of whole rows, and leaves nothing waiting.
pub proof fn law_finish_inserts_the_rest(state: IndexState, table: Table)
    requires
        index::valid(state),
    ensures
        run_only_batches(index::finish(state).1, 1, state.batch_size),
        index::pending(index::finish(state).0, table).len() == 0,
        inserted(index::finish(state).1, table) == index::pending(state, table),
{
    let (s1, a1) = index::flush(state, Table::TokenMetadata);
    let (s2, a2) = index::flush(s1, Table::TokenMint);
    let (s3, a3) = index::flush(s2, Table::TokenAccount);
    lemma_flush(state, Table::TokenMetadata, table);
    lemma_flush(s1, Table::TokenMint, table);
    lemma_flush(s2, Table::TokenAccount, table);
    lemma_inserted_add(a1, a2, table);
    lemma_inserted_add(a1 + a2, a3, table);
    lemma_inserted_add(a1 + a2 + a3, seq![index::seal()], table);
    reveal_with_fuel(inserted, 2);
    assert(inserted(seq![index::seal()], table) =~= Seq::empty());
    assert(index::pending(state, table) =~= index::pending(state, table) + Seq::empty());
    assert(index::pending(s1, table) =~= index::pending(s1, table) + Seq::empty());
    assert(index::pending(s2, table) =~= index::pending(s2, table) + Seq::empty());
    assert(index::pending(s3, table) =~= Seq::empty());
    assert(inserted(index::finish(state).1, table) =~= index::pending(state, table));
}

/// A finished index holds the rows of all its accounts, in order: where no account stops the
/// indexing, what has been inserted into a table is the rows that the accounts have for it.
pub proof fn law_finished_index_is_complete(
    batch_size: int,
    accounts: Seq<StoredAccountView>,
    table: Table,
)
    requires
        batch_size > 0,
        index::run(index::start(batch_size), accounts).error is None,
    ensures
        ({
            let indexed = index::run(index::start(batch_size), accounts);
            inserted(indexed.actions + index::finish(indexed.state).1, table) == all_cells_for(
                accounts,
                table,
            )
        }),
{
    let state = index::start(batch_size);
    let indexed = index::run(state, accounts);
    law_only_full_batches_are_inserted(state, accounts);
    law_no_row_is_lost(state, accounts, table);
    law_finish_inserts_the_rest(indexed.state, table);
    lemma_inserted_add(indexed.actions, index::finish(indexed.state).1, table);
    assert(index::pending(state, table) + all_cells_for(accounts, table) =~= all_cells_for(
        accounts,
        table,
    ));
}

/// A batch has a value for each placeholder of its statement.
pub proof fn law_batches_fill_their_placeholders(
    statement: StatementView,
    table: Table,
    least: int,
    most: int,
)
    requires
        is_batch(statement, table, least, most),
    ensures
        sql::placeholders(statement.sql) == statement.params.len(),
{
    let rows = statement.params.len() / sql::columns(table);
    sql::law_placeholders(table, rows);
    assert(sql::columns(table) * rows == rows * sql::columns(table)) by (nonlinear_arith);
}

/// It does not matter how the accounts are grouped: indexing some accounts and then others is
/// indexing them all in one go.
pub proof fn law_groups_do_not_matter(
    state: IndexState,
    a: Seq<StoredAccountView>,
    b: Seq<StoredAccountView>,
)
    ensures
        ({
            let first = index::run(state, a);
            let second = index::run(first.state, b);
            index::run(state, a + b) == if first.error is Some {
                first
            } else {
                index::Run { actions: first.actions + second.actions, ..second }
            }
        }),
    decreases b.len(),
{
    let first = index::run(state, a);
    if b.len() == 0 {
        assert(a + b =~= a);
        assert(first.actions + Seq::<ActionView>::empty() =~= first.actions);
    } else {
        assert((a + b).drop_last() =~= a + b.drop_last());
        law_groups_do_not_matter(state, a, b.drop_last());
        let before = index::run(first.state, b.drop_last());
        if let Ok((next, actions)) = index::whole_step(before.state, b.last()) {
            assert(first.actions + (before.actions + actions) =~= (first.actions + before.actions)
                + actions);
        }
    }
}

/// How many accounts stand before the first that cannot be indexed.
pub open spec fn readable(accounts: Seq<StoredAccountView>) -> nat
    decreases accounts.len(),
{
    if accounts.len() == 0 {
        0
    } else {
        let n = readable(accounts.drop_last());
        if n == accounts.len() - 1 && index::account_row(accounts.last()) is Ok {
            accounts.len()
        } else {
            n
        }
    }
}

/// An account can be indexed in any state, or in none: where its row can be told.
proof fn lemma_step_or_error(state: IndexState, account: StoredAccountView)
    ensures
        match index::account_row(account) {
            Ok(_) => index::whole_step(state, account) is Ok,
            Err(e) => index::whole_step(state, account) == Err::<Step, IndexErrorView>(e),
        },
{
    reveal(index::whole_step);
}

/// The indexing stops at the first account that holds invalid metadata, with the error of
/// that account, and with the accounts before it indexed. Where there is none, it does not
/// stop.
pub proof fn law_indexing_stops_at_the_first_invalid_account(
    state: IndexState,
    accounts: Seq<StoredAccountView>,
)
    ensures
        ({
            let n = readable(accounts) as int;
            let indexed = index::run(state, accounts);
            let before = index::run(state, accounts.take(n));
            &&& n <= accounts.len()
            &&& before.error is None
            &&& indexed.state == before.state
            &&& indexed.actions == before.actions
            &&& if n == accounts.len() {
                indexed.error is None
            } else {
                index::account_row(accounts[n]) matches Err(e) && indexed.error == Some(e)
            }
        }),
    decreases accounts.len(),
{
    let n = readable(accounts) as int;
    if accounts.len() == 0 {
        assert(accounts.take(n) =~= accounts);
    } else {
        law_indexing_stops_at_the_first_invalid_account(state, accounts.drop_last());
        let m = readable(accounts.drop_last()) as int;
        assert(accounts.drop_last().take(m) =~= accounts.take(m));
        if m == accounts.len() - 1 {
            lemma_step_or_error(index::run(state, accounts.drop_last()).state, accounts.last());
            assert(accounts.take(m) =~= accounts.drop_last());
            if n == accounts.len() {
                assert(accounts.take(n) =~= accounts);
            }
        }
    }
}

/// Whether an account is counted by a counter.
pub open spec fn is_counted(account: StoredAccountView, counter: Counter) -> bool {
    match counter {
        Counter::Accounts => true,
        Counter::TokenAccounts => {
            &&& account.owner == token::token_program()
            &&& token::kind_of_len(account.data_len) != TokenKind::Unexpected
        },
        Counter::MetaplexAccounts => {
            &&& account.owner == mpl_metadata::metadata_program()
            &&& index::metadata_row(account) matches Ok(Some(_))
        },
    }
}

/// How many accounts a counter counts.
pub open spec fn counted(accounts: Seq<StoredAccountView>, counter: Counter) -> nat
    decreases accounts.len(),
{
    if accounts.len() == 0 {
        0
    } else {
        counted(accounts.drop_last(), counter) + if is_counted(accounts.last(), counter) {
            1nat
        } else {
            0
        }
    }
}

proof fn lemma_account_count(state: IndexState, account: StoredAccountView, counter: Counter)
    requires
        index::whole_step(state, account) is Ok,
    ensures
        index::count_of((index::whole_step(state, account)->Ok_0).0, counter) == if is_counted(
            account,
            counter,
        ) {
            crate::progress::next_count(index::count_of(state, counter))
        } else {
            index::count_of(state, counter)
        },
{
    reveal(index::whole_step);
    index::lemma_programs_differ();
}

proof fn lemma_next_count(n: u64, total: int)
    requires
        n == total % 0x1_0000_0000_0000_0000,
    ensures
        crate::progress::next_count(n) == (total + 1) % 0x1_0000_0000_0000_0000,
{
}

/// Where no account stops the indexing, each counter has counted on by the accounts that it
/// counts, round the end of the 64-bit numbers if it gets there.
pub proof fn law_counts(state: IndexState, accounts: Seq<StoredAccountView>, counter: Counter)
    requires
        index::run(state, accounts).error is None,
    ensures
        index::count_of(index::run(state, accounts).state, counter) == (index::count_of(
            state,
            counter,
        ) + counted(accounts, counter)) % 0x1_0000_0000_0000_0000,
    decreases accounts.len(),
{
    if accounts.len() > 0 {
        let before = index::run(state, accounts.drop_last());
        law_counts(state, accounts.drop_last(), counter);
        lemma_account_count(before.state, accounts.last(), counter);
        lemma_next_count(
            index::count_of(before.state, counter),
            index::count_of(state, counter) + counted(accounts.drop_last(), counter),
        );
    }
}

proof fn lemma_first_cell(account: StoredAccountView)
    ensures
        index::account_row(account) matches Ok(Some(row)) ==> row.cells[0] == rows::address_cell(
            account.pubkey,
        ),
{
    lemma_token_row_fits(account);
    lemma_metadata_row_fits(account);
}

/// Rows of different accounts have different keys, so that none replaces another: the first
/// cell of a row tells which account it is of.
pub proof fn law_first_cell_identifies_the_account(a: StoredAccountView, b: StoredAccountView)
    requires
        a.pubkey.len() == b.pubkey.len(),
        index::account_row(a) matches Ok(Some(row)) && index::account_row(b) matches Ok(
            Some(other),
        ) && row.cells[0] == other.cells[0],
    ensures
        a.pubkey == b.pubkey,
{
    lemma_first_cell(a);
    lemma_first_cell(b);
    base58::law_base58_is_injective(a.pubkey, b.pubkey);
}

/// Only mints with a supply of one are indexed.
pub proof fn law_indexed_mints_have_a_supply_of_one(account: StoredAccountView)
    ensures
        index::account_row(account) matches Ok(Some(row)) ==> row.table == Table::TokenMint
            ==> row.cells[2] == ValueView::Integer(1),
{
}

/// While accounts are taken in, what has been inserted into a table is a number of full
/// batches.
pub proof fn law_inserted_cells_make_full_batches(
    state: IndexState,
    accounts: Seq<StoredAccountView>,
    table: Table,
)
    requires
        index::valid(state),
    ensures
        inserted(index::run(state, accounts).actions, table).len() as int % (sql::columns(table)
            * state.batch_size) == 0,
    decreases accounts.len(),
{
    let size = sql::columns(table) * state.batch_size;
    assert(size > 0) by (nonlinear_arith)
        requires
            size == sql::columns(table) * state.batch_size,
            sql::columns(table) > 0,
            state.batch_size > 0,
    ;
    if accounts.len() == 0 {
        assert(0int % size == 0) by (nonlinear_arith)
            requires
                size > 0,
        ;
    } else {
        let before = index::run(state, accounts.drop_last());
        law_inserted_cells_make_full_batches(state, accounts.drop_last(), table);
        law_only_full_batches_are_inserted(state, accounts.drop_last());
        if before.error is None {
            if let Ok(step) = index::whole_step(before.state, accounts.last()) {
                lemma_account_step(before.state, accounts.last(), table);
                lemma_inserted_add(before.actions, step.1, table);
                vstd::arithmetic::div_mod::lemma_mod_add_multiples_vanish(
                    inserted(before.actions, table).len() as int,
                    size,
                );
            }
        }
    }
}

/// How many rows actions insert into the table of token metadata.
pub open spec fn inserted_metadata_rows(actions: Seq<ActionView>) -> nat {
    inserted(actions, Table::TokenMetadata).len() / sql::columns(Table::TokenMetadata)
}

/// Taking in an account of the token metadata program keeps the Metaplex count in step with
/// the rows: if it is the number of metadata rows inserted before (`done`) and waiting, round
/// the end of the 64-bit numbers, then it still is, and a full batch has been inserted, or
/// nothing.
pub proof fn law_metadata_step_counts_its_row(
    state: IndexState,
    account: StoredAccountView,
    done: nat,
)
    requires
        index::valid(state),
        index::metadata_row(account) is Ok,
        state.metaplex_accounts == (done + index::pending_rows(state, Table::TokenMetadata))
            % 0x1_0000_0000_0000_0000,
    ensures
        ({
            let step = index::metadata_step(state, index::metadata_row(account)->Ok_0);
            let rows = inserted_metadata_rows(step.1);
            &&& index::valid(step.0)
            &&& rows == 0 || rows == state.batch_size
            &&& step.0.metaplex_accounts == (done + rows + index::pending_rows(
                step.0,
                Table::TokenMetadata,
            )) % 0x1_0000_0000_0000_0000
        }),
{
    let table = Table::TokenMetadata;
    lemma_no_row(state, Seq::empty(), table);
    lemma_metadata_row_fits(account);
    if let Some(row) = index::metadata_row(account)->Ok_0 {
        let added = index::add_row(state, row);
        let step = index::then_count(added, Counter::MetaplexAccounts);
        lemma_add_row(state, row, table);
        lemma_then_count(state, row.cells, added, Counter::MetaplexAccounts, table);
        let inserted_cells = inserted(step.1, table).len();
        assert(index::pending(state, table).len() + 13 == inserted_cells + index::pending(
            step.0,
            table,
        ).len());
        lemma_next_count(
            state.metaplex_accounts,
            (done + index::pending_rows(state, table)) as int,
        );
    }
}

/// An account counts as a Metaplex account exactly if it has a metadata row.
proof fn lemma_metadata_cells(account: StoredAccountView)
    ensures
        cells_for(account, Table::TokenMetadata).len() == if is_counted(
            account,
            Counter::MetaplexAccounts,
        ) {
            sql::columns(Table::TokenMetadata)
        } else {
            0
        },
{
    reveal(cells_for);
    index::lemma_programs_differ();
    lemma_metadata_row_fits(account);
}

proof fn lemma_all_metadata_cells(accounts: Seq<StoredAccountView>)
    ensures
        all_cells_for(accounts, Table::TokenMetadata).len() == 13 * counted(
            accounts,
            Counter::MetaplexAccounts,
        ),
    decreases accounts.len(),
{
    if accounts.len() > 0 {
        lemma_all_metadata_cells(accounts.drop_last());
        lemma_metadata_cells(accounts.last());
    }
}

/// From the start on, the Metaplex count is the number of metadata rows that have been
/// inserted or wait, round the end of the 64-bit numbers, whether or not an account has
/// stopped the indexing.
pub proof fn law_metaplex_count_is_the_metadata_rows(
    batch_size: int,
    accounts: Seq<StoredAccountView>,
)
    requires
        batch_size > 0,
    ensures
        ({
            let indexed = index::run(index::start(batch_size), accounts);
            indexed.state.metaplex_accounts == (inserted_metadata_rows(indexed.actions)
                + index::pending_rows(indexed.state, Table::TokenMetadata))
                % 0x1_0000_0000_0000_0000
        }),
{
    let table = Table::TokenMetadata;
    let state = index::start(batch_size);
    law_indexing_stops_at_the_first_invalid_account(state, accounts);
    let taken = accounts.take(readable(accounts) as int);
    let indexed = index::run(state, taken);
    law_only_full_batches_are_inserted(state, taken);
    law_no_row_is_lost(state, taken, table);
    law_counts(state, taken, Counter::MetaplexAccounts);
    lemma_all_metadata_cells(taken);
    assert(index::pending(state, table) + all_cells_for(taken, table) =~= all_cells_for(
        taken,
        table,
    ));
    assert(inserted(indexed.actions, table).len() + index::pending(indexed.state, table).len()
        == 13 * counted(taken, Counter::MetaplexAccounts));
}

/// The warnings among actions, in order.
pub open spec fn warnings(actions: Seq<ActionView>) -> Seq<Seq<char>>
    decreases actions.len(),
{
    if actions.len() == 0 {
        Seq::empty()
    } else {
        match actions.last() {
            ActionView::Warn(text) => warnings(actions.drop_last()).push(text),
            _ => warnings(actions.drop_last()),
        }
    }
}

/// Whether there is no warning among actions.
spec fn quiet(actions: Seq<ActionView>) -> bool {
    forall|i: int| 0 <= i < actions.len() ==> !(#[trigger] actions[i] is Warn)
}

proof fn lemma_quiet_end(a: Seq<ActionView>, b: Seq<ActionView>)
    requires
        quiet(b),
    ensures
        warnings(a + b) == warnings(a),
    decreases b.len(),
{
    if b.len() == 0 {
        assert(a + b =~= a);
    } else {
        assert(!(b[b.len() - 1] is Warn));
        assert((a + b).drop_last() =~= a + b.drop_last());
        lemma_quiet_end(a, b.drop_last());
    }
}

proof fn lemma_count_is_quiet(step: Step, counter: Counter)
    ensures
        warnings(index::then_count(step, counter).1) == warnings(step.1),
{
    lemma_quiet_end(step.1, index::count(step.0, counter).1);
}

proof fn lemma_row_is_quiet(state: IndexState, row: Option<Row>)
    ensures
        warnings(index::add_optional_row(state, row).1) == Seq::<Seq<char>>::empty(),
{
    let actions = index::add_optional_row(state, row).1;
    lemma_quiet_end(Seq::empty(), actions);
    assert(Seq::empty() + actions =~= actions);
}

/// Taking in an account warns of it if and only if it belongs to the token program and has an
/// unexpected size, once, with its address and its size.
pub proof fn law_unexpected_sizes_are_warned_of(state: IndexState, account: StoredAccountView)
    ensures
        index::account_step(state, account) matches Ok(step) ==> warnings(step.1) == if account.owner
            == token::token_program() && token::kind_of_len(account.data_len)
            == TokenKind::Unexpected {
            seq![index::size_warning(account)]
        } else {
            Seq::empty()
        },
{
    let (actions, counter) = (Seq::<ActionView>::empty(), Counter::Accounts);
    if account.owner == token::token_program() {
        let row = index::token_row(account);
        lemma_row_is_quiet(state, row);
        lemma_count_is_quiet(index::add_optional_row(state, row), Counter::TokenAccounts);
        lemma_count_is_quiet(index::token_step(state, account), counter);
        let warning = seq![ActionView::Warn(index::size_warning(account))];
        assert(warning.drop_last() =~= actions);
        assert(warnings(actions) =~= Seq::empty());
        assert(warnings(warning) =~= seq![index::size_warning(account)]);
    } else if account.owner == mpl_metadata::metadata_program() {
        if let Ok(row) = index::metadata_row(account) {
            lemma_row_is_quiet(state, row);
            lemma_count_is_quiet(index::add_optional_row(state, row), Counter::MetaplexAccounts);
            lemma_count_is_quiet(index::metadata_step(state, row), counter);
        }
    } else {
        lemma_count_is_quiet((state, actions), counter);
        assert(actions + index::count(state, counter).1 =~= index::count(state, counter).1);
    }
}

} // verus!
