# hybrid_rbac_abac

Hybrid role- and attribute-based access control with password and token
authentication, verified with Verus.

- `src/` is the verified library:
  - `rbac/`: roles, dynamic and delegated role assignments, time windows and
    time specifications, sessions, permission checks;
  - `abac/`, `hybrid/`: attribute matchers, conditions and policies, and the
    engine that combines role-based, attribute-based and hybrid policies
    (a denial overrides);
  - `auth/`: accounts (bcrypt password hashes, lockout after five failures),
    HS256 access, refresh and password-reset tokens (`jsonwebtoken`), and the
    authentication service (logins, sessions, token refresh, logout, password
    changes and resets, the authentication gate of the HTTP middleware);
  - `context.rs`: the access context of a request;
  - `setup.rs`: the default roles, policies and accounts;
  - `clock.rs`, `text.rs`, `dict.rs`: instants, strings and an insertion-ordered
    string map, with their specifications.

  The tables keyed by strings (accounts, sessions, tokens, roles, attributes) are
  `dict::StrMap`, a vector of key-value pairs where a key is found at its first
  entry, in place of `HashMap<String, _>`. vstd's specification of `HashMap` holds
  only for key types that obey its key model (`obeys_key_model`), which vstd
  establishes for integer and boolean keys but not for `String`; for `String` keys
  it could only be assumed, so nothing could be proved of what a lookup or insert
  gives; and
  the order in which a `HashMap` is walked is left open, where `StrMap` keeps the
  order of insertion, so the first match of a search is fixed.

  Every rule that reads the clock has a form that takes the instant as an
  argument (`..._at`), with an exact contract.
- `tests/` runs the library on concrete values.
- `app/` is the actix-web server: routes, handlers, middleware plumbing and the
  JSON forms of the library's types.
