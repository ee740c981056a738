//! The indexer: takes accounts in, and says what to do on the database.
use vstd::prelude::*;

use crate::account::{StoredAccount, StoredAccountView};
use crate::action;
use crate::action::{Action, Counter};
use crate::base58;
use crate::bytes;
use crate::decimal;
use crate::error::IndexError;
use crate::index;
use crate::index::{IndexState, Row};
use crate::mpl_metadata;
use crate::mpl_metadata::{AccountKey, Metadata, MetadataExt, MetadataExtV1_2};
use crate::progress::{IndexStats, ProgressCounter};
use crate::rows;
use crate::sql;
use crate::sql::{Statement, Table};
use crate::temp_file::{Place, TempFileGuard};
use crate::token;
use crate::token::TokenKind;
use crate::value;
use crate::value::Value;

verus! {

/// How many rows are inserted at once.
pub const BATCH_SIZE: i32 = 200;

/// Collects the rows of accounts, table by table, and hands them out in batches.
#[derive(Debug)]
pub struct Worker {
    accounts_counter: ProgressCounter,
    token_accounts_counter: ProgressCounter,
    metaplex_accounts_counter: ProgressCounter,
    batch_size: i32,
    token_metadata_counter: i32,
    token_metadata_params: Vec<Value>,
    token_mint_counter: i32,
    token_mint_params: Vec<Value>,
    token_account_counter: i32,
    token_account_params: Vec<Value>,
}

impl View for Worker {
    type V = IndexState;

    closed spec fn view(&self) -> IndexState {
        IndexState {
            accounts: self.accounts_counter@,
            token_accounts: self.token_accounts_counter@,
            metaplex_accounts: self.metaplex_accounts_counter@,
            batch_size: self.batch_size as int,
            token_metadata: value::values_view(self.token_metadata_params@),
            token_mint: value::values_view(self.token_mint_params@),
            token_account: value::values_view(self.token_account_params@),
        }
    }
}

/// What the accounts of a list hold.
pub open spec fn accounts_view(accounts: Seq<StoredAccount>) -> Seq<StoredAccountView> {
    accounts.map_values(|account: StoredAccount| account@)
}

/// Words the warning about an account of the token program whose size is unexpected.
pub fn unexpected_size_warning(account: &StoredAccount) -> (text: String)
    ensures
        text@ == index::size_warning(account@),
        text@ == "Token program account "@ + base58::base58(account.pubkey@)
            + " has unexpected size "@ + decimal::decimal(account.data_len as nat),
{
    let mut text = String::new();
    text.append("Token program account ");
    text.append(base58::encode_key(&account.pubkey).as_str());
    text.append(" has unexpected size ");
    text.append(decimal::write_decimal(account.data_len).as_str());
    assert(text@ =~= index::size_warning(account@));
    text
}

proof fn lemma_values_view_add(a: Seq<Value>, b: Seq<Value>)
    ensures
        value::values_view(a + b) == value::values_view(a) + value::values_view(b),
{
    assert(value::values_view(a + b) =~= value::values_view(a) + value::values_view(b));
}

proof fn lemma_actions_view_push(actions: Seq<Action>, last: Action)
    ensures
        action::actions_view(actions.push(last)) == action::actions_view(actions).push(last@),
{
    assert(action::actions_view(actions.push(last)) =~= action::actions_view(actions).push(last@));
}

impl Worker {
    /// Whether each counter tells how many rows wait for its table.
    pub closed spec fn consistent(&self) -> bool {
        &&& 0 <= self.token_metadata_counter <= self.batch_size
        &&& self.token_metadata_params@.len() == self.token_metadata_counter * 13
        &&& 0 <= self.token_mint_counter <= self.batch_size
        &&& self.token_mint_params@.len() == self.token_mint_counter * 6
        &&& 0 <= self.token_account_counter <= self.batch_size
        &&& self.token_account_params@.len() == self.token_account_counter * 9
    }

    /// Whether, besides, whole rows wait for each table, and fewer than a batch.
    pub open spec fn wf(&self) -> bool {
        &&& self.consistent()
        &&& index::valid(self@)
    }

    /// Starts with nothing indexed.
    pub fn new() -> (worker: Self)
        ensures
            worker.wf(),
            worker@ == index::start(BATCH_SIZE as int),
            worker@.batch_size == 200,
            worker@.accounts == 0,
            worker@.token_accounts == 0,
            worker@.metaplex_accounts == 0,
            index::nothing_waits(worker@),
    {
        let worker = Worker {
            accounts_counter: ProgressCounter::new(),
            token_accounts_counter: ProgressCounter::new(),
            metaplex_accounts_counter: ProgressCounter::new(),
            batch_size: BATCH_SIZE,
            token_metadata_counter: 0,
            token_metadata_params: Vec::new(),
            token_mint_counter: 0,
            token_mint_params: Vec::new(),
            token_account_counter: 0,
            token_account_params: Vec::new(),
        };
        assert(value::values_view(Seq::<Value>::empty()) =~= Seq::empty());
        worker
    }

    /// The count of a counter.
    pub fn total(&self, counter: Counter) -> (count: u64)
        ensures
            count == index::count_of(self@, counter),
            counter == Counter::Accounts ==> count == self@.accounts,
            counter == Counter::TokenAccounts ==> count == self@.token_accounts,
            counter == Counter::MetaplexAccounts ==> count == self@.metaplex_accounts,
    {
        match counter {
            Counter::Accounts => self.accounts_counter.get(),
            Counter::TokenAccounts => self.token_accounts_counter.get(),
            Counter::MetaplexAccounts => self.metaplex_accounts_counter.get(),
        }
    }

    /// Hands out the statement that inserts the token accounts that wait.
    pub fn insert_token_account(&mut self) -> (statement: Statement)
        requires
            old(self).consistent(),
            index::pending(old(self)@, Table::TokenAccount).len() > 0,
        ensures
            final(self).consistent(),
            final(self)@ == index::with_pending(old(self)@, Table::TokenAccount, Seq::empty()),
            statement@ == sql::insert_statement(
                Table::TokenAccount,
                index::pending(old(self)@, Table::TokenAccount),
            ),
    {
        let sql = sql::write_insert(Table::TokenAccount, self.token_account_counter as usize);
        let mut params: Vec<Value> = Vec::new();
        params.append(&mut self.token_account_params);
        self.token_account_counter = 0;
        assert(params@ =~= old(self).token_account_params@);
        assert(value::values_view(Seq::<Value>::empty()) =~= Seq::empty());
        Statement { sql, params }
    }

    /// Hands out the statement that inserts the mints that wait.
    pub fn insert_token_mint(&mut self) -> (statement: Statement)
        requires
            old(self).consistent(),
            index::pending(old(self)@, Table::TokenMint).len() > 0,
        ensures
            final(self).consistent(),
            final(self)@ == index::with_pending(old(self)@, Table::TokenMint, Seq::empty()),
            statement@ == sql::insert_statement(
                Table::TokenMint,
                index::pending(old(self)@, Table::TokenMint),
            ),
    {
        let sql = sql::write_insert(Table::TokenMint, self.token_mint_counter as usize);
        let mut params: Vec<Value> = Vec::new();
        params.append(&mut self.token_mint_params);
        self.token_mint_counter = 0;
        assert(params@ =~= old(self).token_mint_params@);
        assert(value::values_view(Seq::<Value>::empty()) =~= Seq::empty());
        Statement { sql, params }
    }

    /// Hands out the statement that inserts the metadata that wait.
    pub fn insert_token_metadata_metadata(&mut self) -> (statement: Statement)
        requires
            old(self).consistent(),
            index::pending(old(self)@, Table::TokenMetadata).len() > 0,
        ensures
            final(self).consistent(),
            final(self)@ == index::with_pending(old(self)@, Table::TokenMetadata, Seq::empty()),
            statement@ == sql::insert_statement(
                Table::TokenMetadata,
                index::pending(old(self)@, Table::TokenMetadata),
            ),
    {
        let sql = sql::write_insert(Table::TokenMetadata, self.token_metadata_counter as usize);
        let mut params: Vec<Value> = Vec::new();
        params.append(&mut self.token_metadata_params);
        self.token_metadata_counter = 0;
        assert(params@ =~= old(self).token_metadata_params@);
        assert(value::values_view(Seq::<Value>::empty()) =~= Seq::empty());
        Statement { sql, params }
    }

    /// Lets the row of a token account wait, and inserts the batch when it is complete.
    fn add_token_account(&mut self, row: Vec<Value>, actions: &mut Vec<Action>)
        requires
            old(self).wf(),
            row@.len() == 9,
        ensures
            final(self).wf(),
            final(self)@ == index::add_row(
                old(self)@,
                (Row { table: Table::TokenAccount, cells: value::values_view(row@) }),
            ).0,
            action::actions_view(final(actions)@) == action::actions_view(old(actions)@)
                + index::add_row(
                old(self)@,
                (Row { table: Table::TokenAccount, cells: value::values_view(row@) }),
            ).1,
    {
        let mut row = row;
        proof {
            lemma_values_view_add(self.token_account_params@, row@);
        }
        self.token_account_params.append(&mut row);
        self.token_account_counter = self.token_account_counter + 1;
        if self.token_account_counter == self.batch_size {
            let statement = self.insert_token_account();
            actions.push(Action::Execute(statement));
            proof {
                lemma_actions_view_push(old(actions)@, actions@.last());
            }
        }
    }

    /// Lets the row of a mint wait, and inserts the batch when it is complete.
    fn add_token_mint(&mut self, row: Vec<Value>, actions: &mut Vec<Action>)
        requires
            old(self).wf(),
            row@.len() == 6,
        ensures
            final(self).wf(),
            final(self)@ == index::add_row(
                old(self)@,
                (Row { table: Table::TokenMint, cells: value::values_view(row@) }),
            ).0,
            action::actions_view(final(actions)@) == action::actions_view(old(actions)@)
                + index::add_row(
                old(self)@,
                (Row { table: Table::TokenMint, cells: value::values_view(row@) }),
            ).1,
    {
        let mut row = row;
        proof {
            lemma_values_view_add(self.token_mint_params@, row@);
        }
        self.token_mint_params.append(&mut row);
        self.token_mint_counter = self.token_mint_counter + 1;
        if self.token_mint_counter == self.batch_size {
            let statement = self.insert_token_mint();
            actions.push(Action::Execute(statement));
            proof {
                lemma_actions_view_push(old(actions)@, actions@.last());
            }
        }
    }

    /// Lets the row of metadata wait, and inserts the batch when it is complete.
    fn add_token_metadata(&mut self, row: Vec<Value>, actions: &mut Vec<Action>)
        requires
            old(self).wf(),
            row@.len() == 13,
        ensures
            final(self).wf(),
            final(self)@ == index::add_row(
                old(self)@,
                (Row { table: Table::TokenMetadata, cells: value::values_view(row@) }),
            ).0,
            action::actions_view(final(actions)@) == action::actions_view(old(actions)@)
                + index::add_row(
                old(self)@,
                (Row { table: Table::TokenMetadata, cells: value::values_view(row@) }),
            ).1,
    {
        let mut row = row;
        proof {
            lemma_values_view_add(self.token_metadata_params@, row@);
        }
        self.token_metadata_params.append(&mut row);
        self.token_metadata_counter = self.token_metadata_counter + 1;
        if self.token_metadata_counter == self.batch_size {
            let statement = self.insert_token_metadata_metadata();
            actions.push(Action::Execute(statement));
            proof {
                lemma_actions_view_push(old(actions)@, actions@.last());
            }
        }
    }

    /// Counts on, and moves the progress bar where that is due.
    fn count(&mut self, counter: Counter, actions: &mut Vec<Action>)
        requires
            old(self).wf(),
        ensures
            final(self).wf(),
            final(self)@ == index::count(old(self)@, counter).0,
            action::actions_view(final(actions)@) == action::actions_view(old(actions)@)
                + index::count(old(self)@, counter).1,
    {
        let position = match counter {
            Counter::Accounts => self.accounts_counter.inc(),
            Counter::TokenAccounts => self.token_accounts_counter.inc(),
            Counter::MetaplexAccounts => self.metaplex_accounts_counter.inc(),
        };
        if let Some(position) = position {
            actions.push(Action::SetPosition(counter, position));
            proof {
                lemma_actions_view_push(old(actions)@, actions@.last());
            }
        }
    }

    /// Indexes an account of the token program.
    pub fn insert_token(&mut self, account: &StoredAccount, actions: &mut Vec<Action>)
        requires
            old(self).wf(),
        ensures
            final(self).wf(),
            final(self)@ == index::token_step(old(self)@, account@).0,
            action::actions_view(final(actions)@) == action::actions_view(old(actions)@)
                + index::token_step(old(self)@, account@).1,
    {
        match TokenKind::of_len(account.data_len) {
            TokenKind::Account => {
                if let Some(token_account) = token::unpack_token_account(account.data) {
                    let row = rows::prepare_token_account_params(account, &token_account);
                    assert(row@.len() == value::values_view(row@).len());
                    self.add_token_account(row, actions);
                }
            },
            TokenKind::Mint => {
                if let Some(token_mint) = token::unpack_mint(account.data) {
                    if bytes::as_i64(token_mint.supply) == 1 {
                        let row = rows::prepare_token_mint_params(account, &token_mint);
                        assert(row@.len() == value::values_view(row@).len());
                        self.add_token_mint(row, actions);
                    }
                }
            },
            // Counted, without a row of its own.
            TokenKind::Multisig => {},
            TokenKind::Unexpected => {
                actions.push(Action::Warn(unexpected_size_warning(account)));
                proof {
                    lemma_actions_view_push(old(actions)@, actions@.last());
                }
                return ;
            },
        }
        self.count(Counter::TokenAccounts, actions);
    }

    /// Indexes an account of the token metadata program.
    #[verifier::rlimit(30)]
    pub fn insert_token_metadata(
        &mut self,
        account: &StoredAccount,
        actions: &mut Vec<Action>,
    ) -> (r: Result<(), IndexError>)
        requires
            old(self).wf(),
        ensures
            final(self).wf(),
            match index::metadata_row(account@) {
                Ok(row) => {
                    &&& r is Ok
                    &&& final(self)@ == index::metadata_step(old(self)@, row).0
                    &&& action::actions_view(final(actions)@) == action::actions_view(
                        old(actions)@,
                    ) + index::metadata_step(old(self)@, row).1
                },
                Err(e) => {
                    &&& r matches Err(error) && error@ == e
                    &&& final(self)@ == old(self)@
                    &&& final(actions)@ == old(actions)@
                },
            },
    {
        if account.data.is_empty() {
            return Ok(());
        }
        let (account_key, data) = match AccountKey::deserialize(account.data) {
            Some(read) => read,
            None => return Ok(()),
        };
        if account_key != AccountKey::MetadataV1 {
            return Ok(());
        }
        let (meta_v1, data) = match Metadata::deserialize(data) {
            Ok(read) => read,
            Err(cause) => {
                return Err(IndexError::InvalidMetadata { pubkey: account.pubkey, cause });
            },
        };
        let (meta_v1_1, meta_v1_2) = match MetadataExt::deserialize(data) {
            Some((first, data)) => match MetadataExtV1_2::deserialize(data) {
                Some((second, _)) => (Some(first), Some(second)),
                None => (Some(first), None),
            },
            None => (None, None),
        };
        let row = rows::prepare_token_metadata_params(
            account,
            &meta_v1,
            meta_v1_1.as_ref(),
            meta_v1_2.as_ref(),
        );
        assert(row@.len() == value::values_view(row@).len());
        self.add_token_metadata(row, actions);
        self.count(Counter::MetaplexAccounts, actions);
        Ok(())
    }

    /// Indexes an account: takes it in, and says what is to be done now. An account that
    /// cannot be indexed changes nothing.
    pub fn insert_account(
        &mut self,
        account: &StoredAccount,
        actions: &mut Vec<Action>,
    ) -> (r: Result<(), IndexError>)
        requires
            old(self).wf(),
        ensures
            final(self).wf(),
            match index::account_step(old(self)@, account@) {
                Ok(step) => {
                    &&& r is Ok
                    &&& final(self)@ == step.0
                    &&& action::actions_view(final(actions)@) == action::actions_view(
                        old(actions)@,
                    ) + step.1
                },
                Err(e) => {
                    &&& r matches Err(error) && error@ == e
                    &&& final(self)@ == old(self)@
                    &&& final(actions)@ == old(actions)@
                },
            },
    {
        proof {
            index::lemma_programs_differ();
        }
        if bytes::same_key(&account.owner, &token::token_program_id()) {
            self.insert_token(account, actions);
        }
        if bytes::same_key(&account.owner, &mpl_metadata::id()) {
            match self.insert_token_metadata(account, actions) {
                Ok(_) => {},
                Err(e) => return Err(e),
            }
        }
        self.count(Counter::Accounts, actions);
        Ok(())
    }

    /// Indexes the accounts of an append vec in order, up to the first that cannot be
    /// indexed.
    pub fn on_append_vec(
        &mut self,
        accounts: &[StoredAccount],
        actions: &mut Vec<Action>,
    ) -> (r: Result<(), IndexError>)
        requires
            old(self).wf(),
        ensures
            final(self).wf(),
            ({
                let run = index::run(old(self)@, accounts_view(accounts@));
                &&& final(self)@ == run.state
                &&& action::actions_view(final(actions)@) == action::actions_view(old(actions)@)
                    + run.actions
                &&& match run.error {
                    Some(e) => r matches Err(error) && error@ == e,
                    None => r is Ok,
                }
            }),
    {
        let ghost all = accounts_view(accounts@);
        let ghost start = self@;
        let ghost before = action::actions_view(actions@);
        let mut i: usize = 0;
        while i < accounts.len()
            invariant
                i <= accounts.len(),
                self.wf(),
                all == accounts_view(accounts@),
                start == old(self)@,
                before == action::actions_view(old(actions)@),
                index::run(start, all.take(i as int)).error is None,
                self@ == index::run(start, all.take(i as int)).state,
                action::actions_view(actions@) == before + index::run(
                    start,
                    all.take(i as int),
                ).actions,
            decreases accounts.len() - i,
        {
            let ghost step = index::whole_step(self@, all[i as int]);
            let ghost done = index::run(start, all.take(i as int)).actions;
            proof {
                assert(all[i as int] == accounts@[i as int]@);
                index::lemma_run_next(start, all, i as int);
            }
            let result = self.insert_account(&accounts[i], actions);
            proof {
                reveal(index::whole_step);
                if let Ok((next, more)) = step {
                    assert((before + done) + more =~= before + (done + more));
                }
            }
            if let Err(e) = result {
                proof {
                    index::lemma_run_stops(start, all, i + 1);
                }
                return Err(e);
            }
            i += 1;
        }
        assert(all.take(i as int) =~= all);
        Ok(())
    }

    /// Inserts all that still waits, and makes the database read-only.
    pub fn finish(&mut self, actions: &mut Vec<Action>)
        requires
            old(self).wf(),
        ensures
            final(self).wf(),
            final(self)@ == index::finish(old(self)@).0,
            action::actions_view(final(actions)@) == action::actions_view(old(actions)@)
                + index::finish(old(self)@).1,
            index::nothing_waits(final(self)@),
            forall|counter: Counter| #[trigger]
                index::count_of(final(self)@, counter) == index::count_of(old(self)@, counter),
    {
        if self.token_metadata_counter > 0 {
            let statement = self.insert_token_metadata_metadata();
            let ghost so_far = actions@;
            actions.push(Action::Execute(statement));
            proof {
                lemma_actions_view_push(so_far, actions@.last());
            }
        }
        if self.token_mint_counter > 0 {
            let statement = self.insert_token_mint();
            let ghost so_far = actions@;
            actions.push(Action::Execute(statement));
            proof {
                lemma_actions_view_push(so_far, actions@.last());
            }
        }
        if self.token_account_counter > 0 {
            let statement = self.insert_token_account();
            let ghost so_far = actions@;
            actions.push(Action::Execute(statement));
            proof {
                lemma_actions_view_push(so_far, actions@.last());
            }
        }
        let ghost so_far = actions@;
        actions.push(Action::Pragma("query_only", Value::Integer(1)));
        proof {
            lemma_actions_view_push(so_far, actions@.last());
        }
    }

    /// Ends the indexing, when what [`Worker::finish`] has asked for is done: sums up, and
    /// gives up the temporary file, so that it can be renamed.
    pub fn close(&self, guard: &mut TempFileGuard) -> (r: (IndexStats, Place))
        requires
            index::nothing_waits(self@),
            old(guard)@ is Some,
        ensures
            r.0.accounts_total == self@.accounts,
            r.0.token_accounts_total == self@.token_accounts,
            old(guard)@ == Some(r.1@),
            old(guard).path == Some(r.1),
            final(guard)@ is None,
            final(guard).path is None,
    {
        let stats = IndexStats {
            accounts_total: self.total(Counter::Accounts),
            token_accounts_total: self.total(Counter::TokenAccounts),
        };
        (stats, guard.promote())
    }
}

} // verus!
