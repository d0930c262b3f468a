# rust_axum_layered_rest_api

A layered REST API (accounts with roles and refresh sessions, and products)
whose logic is written and proved with Verus.

- `src/` is the verified library: roles and permissions, access tokens
  (HS256 JWT payload text, signing and checking through `jsonwebtoken`),
  refresh-session bookkeeping as Redis commands over a modelled key-value
  store, password hashing through `argon2`, request validation, the SQL of the
  product queries, paging metadata, and the account flows as state machines.
- `app/` is the server around it: axum routes and middleware, the PostgreSQL
  and Redis connections, and the loops that perform the actions the account
  state machines ask for.
- `tests/` runs the library on concrete values.
