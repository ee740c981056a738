# snapshot_sqlite

Indexes the accounts of Solana snapshots into SQLite: token accounts, mints with a supply of
one, and Metaplex token metadata become rows, which are inserted in batches.

- `src/` is the library, written and proved in Verus. `worker` takes accounts in and says
  what is to be done on the database; `index` is the model that its contracts speak of, and
  `laws` is what holds of the index as a whole. `token`, `mpl_metadata` and `borsh_fields`
  read account data, `rows`, `base58` and `json` make rows of it, `sql` and `database` hold
  the statements, and `decimal` writes numbers.
- `app/` is the indexer around it: the SQLite connection, the progress bars, the temporary
  file.
- `tests/` runs the library, partly on a database in memory.
