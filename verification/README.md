# mugunghwa

The logic of a small content backend (writings, files and user sessions on
Cloudflare Workers), written in Verus and proved against its contracts.

- `src/` is the verified library: snowflake identifiers (`snowflake`,
  `hashing`), slugs and writing summaries over the regex crate (`pattern`,
  `writings`), unpadded base64url and JSON text (`base64url`, `json`, `text`),
  HS256 session tokens (`jwt`), Argon2 password hashing and the OS random
  source (`password`), and the decisions of the request handlers (`auth`,
  `files`, `commons`).
- `app/` is the worker around it: routing, the D1 database, the KV store, the
  R2 bucket, and JSON bodies through serde.
- `tests/` runs the library on concrete inputs.

The main laws: a session token issued at login names its user at logout
until it expires (`auth::lemma_login_token_names_user_at_logout`,
`jwt::lemma_issued_token_names_user`, `jwt::lemma_issued_token_expires`);
base64url decoding undoes encoding and accepts nothing else
(`base64url::lemma_b64_decode_encode`, `base64url::lemma_b64_encode_decode`);
identifiers carry their time and machine and are ordered by time
(`snowflake::generate_snowflake`, `snowflake::lemma_snowflake_time_ordered`);
a stored password hash accepts the password it was made from
(`auth::register`).

Session tokens are HMAC-SHA256 signed. The hmac and sha2 crates supply that
MAC; base64url and the claims JSON are written and read in `src/` itself, so
that the round trip from `sign` to `verify_token` is proved. Refresh tokens
are stored with the id of the user they were issued to, so that
`POST /auth/refresh` (`auth::refresh`) can issue a new pair for that user.
