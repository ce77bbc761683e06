# apex_backend

Backend of a crowd forecasting market on Sui. Forecasters commit to price
predictions in pools; a keeper drives each pool through its states on chain, an
indexer records what happens there, and an API serves the records and previews.

The crate is split in two.

- `src/` is the library, verified with Verus: every function states what it
  returns, and is proved to do so without panicking. What the functions of
  `keeper::sdk` state of the crates that they call is believed, not proved.
  - `math` - the scoring arithmetic, exact to the last truncation.
  - `json`, `text` - JSON values and text.
  - `sui` - requests to the fullnode and the reading of its answers.
  - `indexer` - decoding of events, the statements that record them (`handlers`),
    what these do to the tables (`ledger`), and what happens when a page of events
    is processed again (`replay`). The tables are a model: what each SQL statement
    does to them is a reading of its text, and the laws hold of that reading.
  - `keeper` - when a pool is due for an action, the turn of a pool in a round, and
    the building and signing of calls (`tx`). `sdk` holds the calls into the Sui
    SDK and states what is believed of each.
  - `api` - plans and answers of the HTTP API, and its caches.
  - `config`, `error`, `models` - configuration, API errors, rows.
- `app/` is the server around it: environment, database, HTTP, the loops. It hands
  plain values to the library and performs what the library decides.

`tests/` runs the library on concrete values.

The server reads `DATABASE_URL` (required), `PORT`, `SUI_JSONRPC_URL`,
`APEX_PACKAGE_ID`, `POOL_CONFIG_ID`, `KEEPER_CAP_ID`, `SUI_KEEPER_KEY`,
`ADMIN_SECRET` and `POOL_ORACLE_IDS`. It applies the database migrations that it
finds in `migrations/` where it is started; they are not part of this crate.
