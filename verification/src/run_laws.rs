//! What a run asks for besides the rows: positions of progress bars, warnings, and the end.
use vstd::prelude::*;

use crate::account::StoredAccountView;
use crate::action::{ActionView, Counter};
use crate::base58;
use crate::decimal;
use crate::error;
use crate::error::IndexErrorView;
use crate::index;
use crate::index::{IndexState, Row, Step};
use crate::laws;
use crate::mpl_metadata;
use crate::sql::Table;
use crate::token;
use crate::token::TokenKind;
use crate::value::ValueView;

verus! {

/// The positions that actions tell the progress bar of a counter, in order.
pub open spec fn positions(actions: Seq<ActionView>, counter: Counter) -> Seq<u64>
    decreases actions.len(),
{
    if actions.len() == 0 {
        Seq::empty()
    } else {
        match actions.last() {
            ActionView::SetPosition(moved, position) if moved == counter => positions(
                actions.drop_last(),
                counter,
            ).push(position),
            _ => positions(actions.drop_last(), counter),
        }
    }
}

proof fn lemma_positions_add(a: Seq<ActionView>, b: Seq<ActionView>, counter: Counter)
    ensures
        positions(a + b, counter) == positions(a, counter) + positions(b, counter),
    decreases b.len(),
{
    if b.len() == 0 {
        assert(a + b =~= a);
        assert(positions(a, counter) + Seq::<u64>::empty() =~= positions(a, counter));
    } else {
        assert((a + b).drop_last() =~= a + b.drop_last());
        lemma_positions_add(a, b.drop_last(), counter);
        assert(positions(a + b, counter) =~= positions(a, counter) + positions(b, counter));
    }
}

proof fn lemma_no_positions(actions: Seq<ActionView>, counter: Counter)
    requires
        forall|i: int| 0 <= i < actions.len() ==> !(#[trigger] actions[i] is SetPosition),
    ensures
        positions(actions, counter) == Seq::<u64>::empty(),
    decreases actions.len(),
{
    if actions.len() > 0 {
        assert(!(actions[actions.len() - 1] is SetPosition));
        assert forall|i: int| 0 <= i < actions.drop_last().len() implies !(
        #[trigger] actions.drop_last()[i] is SetPosition) by {
            assert(actions.drop_last()[i] == actions[i]);
        }
        lemma_no_positions(actions.drop_last(), counter);
    }
}

/// The position that counting on tells: the count before, if it is a multiple of 1024.
pub open spec fn told_by(count: u64) -> Seq<u64> {
    if count % 1024 == 0 {
        seq![count]
    } else {
        Seq::empty()
    }
}

proof fn lemma_count_positions(step: Step, counted: Counter, counter: Counter)
    ensures
        positions(index::then_count(step, counted).1, counter) == positions(step.1, counter) + (
        if counted == counter {
            told_by(index::count_of(step.0, counted))
        } else {
            Seq::empty()
        }),
{
    let (state, actions) = index::count(step.0, counted);
    lemma_positions_add(step.1, actions, counter);
    reveal_with_fuel(positions, 2);
    if actions.len() > 0 {
        assert(actions.drop_last() =~= Seq::empty());
    }
    assert(positions(actions, counter) =~= if counted == counter {
        told_by(index::count_of(step.0, counted))
    } else {
        Seq::empty()
    });
}

proof fn lemma_row_positions(state: IndexState, row: Option<Row>, counter: Counter)
    ensures
        positions(index::add_optional_row(state, row).1, counter) == Seq::<u64>::empty(),
        index::count_of(index::add_optional_row(state, row).0, counter) == index::count_of(
            state,
            counter,
        ),
{
    lemma_no_positions(index::add_optional_row(state, row).1, counter);
}

/// Taking in an account tells the progress bar of a counter that counts it the count before,
/// if that is a multiple of 1024, and tells no other position.
pub proof fn law_positions_of_an_account(
    state: IndexState,
    account: StoredAccountView,
    counter: Counter,
)
    ensures
        index::account_step(state, account) matches Ok(step) ==> positions(step.1, counter) == if laws::is_counted(
            account,
            counter,
        ) {
            told_by(index::count_of(state, counter))
        } else {
            Seq::empty()
        },
{
    let none = Seq::<ActionView>::empty();
    let nothing = Seq::<u64>::empty();
    index::lemma_programs_differ();
    assert(positions(none, counter) == nothing);
    assert(nothing + nothing =~= nothing);
    assert(nothing + told_by(index::count_of(state, counter)) =~= told_by(
        index::count_of(state, counter),
    ));
    assert(told_by(index::count_of(state, counter)) + nothing =~= told_by(
        index::count_of(state, counter),
    ));
    if account.owner == token::token_program() {
        let row = index::token_row(account);
        lemma_row_positions(state, row, counter);
        lemma_row_positions(state, row, Counter::TokenAccounts);
        lemma_count_positions(
            index::add_optional_row(state, row),
            Counter::TokenAccounts,
            counter,
        );
        lemma_count_positions(index::token_step(state, account), Counter::Accounts, counter);
        lemma_row_positions(state, row, Counter::Accounts);
        lemma_no_positions(seq![ActionView::Warn(index::size_warning(account))], counter);
    } else if account.owner == mpl_metadata::metadata_program() {
        if let Ok(row) = index::metadata_row(account) {
            lemma_row_positions(state, row, counter);
            lemma_row_positions(state, row, Counter::MetaplexAccounts);
            lemma_row_positions(state, row, Counter::Accounts);
            lemma_count_positions(
                index::add_optional_row(state, row),
                Counter::MetaplexAccounts,
                counter,
            );
            lemma_count_positions(index::metadata_step(state, row), Counter::Accounts, counter);
        }
    } else {
        lemma_count_positions((state, none), Counter::Accounts, counter);
        assert(none + index::count(state, Counter::Accounts).1 =~= index::count(
            state,
            Counter::Accounts,
        ).1);
    }
}

/// The positions that counting on `k` times from `n` tells, round the end of the 64-bit
/// numbers.
pub open spec fn told_from(n: u64, k: nat) -> Seq<u64>
    decreases k,
{
    if k == 0 {
        Seq::empty()
    } else {
        told_from(n, (k - 1) as nat) + told_by(((n + k - 1) % 0x1_0000_0000_0000_0000) as u64)
    }
}

/// Where no account stops the indexing, each progress bar is told every 1024th count of the
/// accounts that its counter counts, in order, and no other position.
pub proof fn law_positions(
    state: IndexState,
    accounts: Seq<StoredAccountView>,
    counter: Counter,
)
    requires
        index::run(state, accounts).error is None,
    ensures
        positions(index::run(state, accounts).actions, counter) == told_from(
            index::count_of(state, counter),
            laws::counted(accounts, counter),
        ),
    decreases accounts.len(),
{
    if accounts.len() > 0 {
        let before = index::run(state, accounts.drop_last());
        let step = index::whole_step(before.state, accounts.last())->Ok_0;
        law_positions(state, accounts.drop_last(), counter);
        laws::law_counts(state, accounts.drop_last(), counter);
        lemma_positions_add(before.actions, step.1, counter);
        assert(index::account_step(before.state, accounts.last()) == Ok::<
            Step,
            IndexErrorView,
        >(step)) by {
            reveal(index::whole_step);
        }
        law_positions_of_an_account(before.state, accounts.last(), counter);
        let told = positions(before.actions, counter);
        assert(told + Seq::<u64>::empty() =~= told);
    }
}

proof fn lemma_warnings_add(a: Seq<ActionView>, b: Seq<ActionView>)
    ensures
        laws::warnings(a + b) == laws::warnings(a) + laws::warnings(b),
    decreases b.len(),
{
    if b.len() == 0 {
        assert(a + b =~= a);
        assert(laws::warnings(a) + Seq::<Seq<char>>::empty() =~= laws::warnings(a));
    } else {
        assert((a + b).drop_last() =~= a + b.drop_last());
        lemma_warnings_add(a, b.drop_last());
        assert(laws::warnings(a + b) =~= laws::warnings(a) + laws::warnings(b));
    }
}

/// The warnings that accounts deserve, in order: one for each account of the token program
/// with an unexpected size.
pub open spec fn deserved_warnings(accounts: Seq<StoredAccountView>) -> Seq<Seq<char>>
    decreases accounts.len(),
{
    if accounts.len() == 0 {
        Seq::empty()
    } else {
        let before = deserved_warnings(accounts.drop_last());
        let last = accounts.last();
        if last.owner == token::token_program() && token::kind_of_len(last.data_len)
            == TokenKind::Unexpected {
            before.push(index::size_warning(last))
        } else {
            before
        }
    }
}

/// Where no account stops the indexing, each account that deserves it is warned of, once and
/// in order, and no other.
pub proof fn law_warnings(state: IndexState, accounts: Seq<StoredAccountView>)
    requires
        index::run(state, accounts).error is None,
    ensures
        laws::warnings(index::run(state, accounts).actions) == deserved_warnings(accounts),
    decreases accounts.len(),
{
    if accounts.len() > 0 {
        let before = index::run(state, accounts.drop_last());
        let step = index::whole_step(before.state, accounts.last())->Ok_0;
        law_warnings(state, accounts.drop_last());
        lemma_warnings_add(before.actions, step.1);
        assert(index::account_step(before.state, accounts.last()) == Ok::<
            Step,
            IndexErrorView,
        >(step)) by {
            reveal(index::whole_step);
        }
        laws::law_unexpected_sizes_are_warned_of(before.state, accounts.last());
        assert(laws::warnings(before.actions + step.1) =~= deserved_warnings(accounts));
    }
}

/// A warning tells which account it is about, and its recorded size, in these words.
pub proof fn law_warnings_tell_the_account_and_the_size(
    a: StoredAccountView,
    b: StoredAccountView,
)
    requires
        a.pubkey.len() == 32,
        b.pubkey.len() == 32,
    ensures
        index::size_warning(a) == "Token program account "@ + base58::base58(a.pubkey)
            + " has unexpected size "@ + decimal::decimal(a.data_len as nat),
        index::size_warning(a) == index::size_warning(b) ==> a.pubkey == b.pubkey && a.data_len
            == b.data_len,
{
    let start = "Token program account "@;
    let middle = " has unexpected size "@;
    let (x, y) = (base58::base58(a.pubkey), base58::base58(b.pubkey));
    let (n, m) = (decimal::decimal(a.data_len as nat), decimal::decimal(b.data_len as nat));
    let left = start + x + middle + n;
    let right = start + y + middle + m;
    if left == right {
        reveal_strlit(" has unexpected size ");
        assert(left.skip(start.len() as int) =~= x + middle + n);
        assert(right.skip(start.len() as int) =~= y + middle + m);
        assert forall|i: int| 0 <= i < x.len() implies #[trigger] x[i] != middle[0] by {
            error::lemma_no_separators(a.pubkey, i);
        }
        assert forall|i: int| 0 <= i < y.len() implies #[trigger] y[i] != middle[0] by {
            error::lemma_no_separators(b.pubkey, i);
        }
        error::lemma_separated(x, n, y, m, middle);
        base58::law_base58_is_injective(a.pubkey, b.pubkey);
        decimal::law_decimal_spells_the_number(a.data_len as nat);
        decimal::law_decimal_spells_the_number(b.data_len as nat);
    }
}

proof fn lemma_no_pragma(state: IndexState, account: StoredAccountView)
    ensures
        index::account_step(state, account) matches Ok(step) ==> forall|i: int|
            0 <= i < step.1.len() ==> !(#[trigger] step.1[i] is Pragma),
{
}

/// Taking in accounts changes no setting of the database.
pub proof fn law_runs_set_no_pragma(state: IndexState, accounts: Seq<StoredAccountView>, i: int)
    requires
        0 <= i < index::run(state, accounts).actions.len(),
    ensures
        !(index::run(state, accounts).actions[i] is Pragma),
    decreases accounts.len(),
{
    if accounts.len() > 0 {
        let before = index::run(state, accounts.drop_last());
        if i < before.actions.len() {
            law_runs_set_no_pragma(state, accounts.drop_last(), i);
        } else {
            let step = index::whole_step(before.state, accounts.last())->Ok_0;
            assert(index::account_step(before.state, accounts.last()) == Ok::<
                Step,
                IndexErrorView,
            >(step)) by {
                reveal(index::whole_step);
            }
            lemma_no_pragma(before.state, accounts.last());
            assert(!(step.1[i - before.actions.len()] is Pragma));
        }
    }
}

/// Finishing runs the last inserts, and then, as the last thing, makes the database
/// read-only. It counts nothing, and nothing waits any more.
pub proof fn law_finish_seals_the_database(state: IndexState, counter: Counter, i: int)
    ensures
        index::finish(state).1.len() > 0,
        index::finish(state).1.last() == ActionView::Pragma(
            "query_only"@,
            ValueView::Integer(1),
        ),
        0 <= i < index::finish(state).1.len() - 1 ==> index::finish(state).1[i] is Execute,
        index::count_of(index::finish(state).0, counter) == index::count_of(state, counter),
        index::finish(state).0.batch_size == state.batch_size,
        index::valid(state) ==> index::nothing_waits(index::finish(state).0),
{
    if index::valid(state) {
        laws::law_finish_inserts_the_rest(state, Table::TokenMetadata);
        laws::law_finish_inserts_the_rest(state, Table::TokenMint);
        laws::law_finish_inserts_the_rest(state, Table::TokenAccount);
    }
}

/// Each counter has its own count, and each table its own rows that wait.
pub proof fn law_counts_and_rows_are_kept_apart(state: IndexState)
    ensures
        index::count_of(state, Counter::Accounts) == state.accounts,
        index::count_of(state, Counter::TokenAccounts) == state.token_accounts,
        index::count_of(state, Counter::MetaplexAccounts) == state.metaplex_accounts,
        index::pending(state, Table::TokenMetadata) == state.token_metadata,
        index::pending(state, Table::TokenMint) == state.token_mint,
        index::pending(state, Table::TokenAccount) == state.token_account,
{
}

/// Indexing starts with nothing counted and nothing waiting.
pub proof fn law_start(batch_size: int, counter: Counter)
    ensures
        index::count_of(index::start(batch_size), counter) == 0,
        index::nothing_waits(index::start(batch_size)),
        index::start(batch_size).batch_size == batch_size,
        batch_size > 0 ==> index::valid(index::start(batch_size)),
{
}

} // verus!
