# board_api

The backend of a small message board: users log in, receive a session token,
post threads, list the board and like threads.

- `src/` is the verified library: the token store and its sessions
  (`api::auth`), the replies of each endpoint (`api::routes`,
  `api::errors::errors`), the JSON framing of the replies (`api::json`,
  `api::types`, `database::types`) and the decisions taken on database results
  (`database::db`).
- `app/` is the server around it: configuration, the HTTP routes (warp), the
  MySQL queries (sqlx), the shared lock around the token store and the timer
  that deletes expired tokens.
- `tests/` exercises the library on concrete values.
