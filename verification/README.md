# tento-server

The backend of Tento, a service that turns a web page into a quiz: users
sign in with GitHub, ask for a quiz draft from a URL, and a background job
summarises the page with a language model, generates the questions and
finalises the quiz, which users can then take and review.

## Layout

- `src/` is the library, written in Verus. Its functions carry contracts
  and are verified, except a few small trusted wrappers
  (`#[verifier::external_body]`) that make one call into std or an outside
  crate and whose contracts state what that call does: the clock and UUIDs
  (`clock.rs`), JSON reading and conversion (`json.rs`), HTML parsing
  (`html.rs`), JWT signing and checking (`auth/jwt.rs`), SHA-256
  (`models/domain/refresh_token.rs`), RFC 3339 instants
  (`models/dto/request.rs`), e-mail and URL checks
  (`models/dto/validation.rs`), UUID parsing (`graphql/helpers.rs`), and
  `String::push` / `str::chars` (`text.rs`).
  - `auth/` — token claims, the JWT service, bearer headers and the
    authorization rules (owner, admin, quiz creator, attempt owner).
  - `handlers/` — the OAuth redirect allowlist and the decisions of the
    sign-in, refresh and logout endpoints.
  - `middleware/` — the CSRF token store and the token-bucket rate limiter.
  - `models/` — users, quizzes, questions, attempts, refresh tokens and
    summary documents, with their request/response forms, validation and
    text formats (numbers, statuses, options JSON, RFC 3339 instants).
  - `services/` — grading, partial quiz updates, the agent job lifecycle and
    the worker's decisions, the steps of quiz generation, page content
    extraction and chunking, and the model tool loop.
  - `graphql/` — the decisions of the GraphQL resolvers between storage calls.
  - `json.rs`, `html.rs`, `text.rs` — the JSON and HTML trees and the string
    operations the rest is stated over.
  - `clock.rs` — the current time and fresh UUIDs.
- `app/` is the program around the library: configuration, MongoDB
  storage, the HTTP routes, the model client and the background worker
  loop.
- `tests/` exercises the library on concrete values.

Laws that span several operations are public proof functions named
`lemma_*`, next to the operations they speak of.
