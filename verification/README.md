# server

The back end of a puzzle game: players open rooms of problems, send queries
(sequences of controller operations) and answers, unlock problems as they
clear others, and compete on each room's leaderboard.

## Layout

- `src/` is the library, written in Verus. Its logic is verified: the
  judges of queries and answers, the checks of problem data and authored
  problems, the plan of what clearing a problem changes, the room list and
  its rankings, configuration, image checks, the query-parameter form of the
  API bodies, and the decisions of every request handler (which error a
  request ends in, and the body of each reply). Most functions carry a
  contract; the few small helpers without one are still checked for safety
  and termination. The few calls into outside crates (Unicode
  normalization, UUID text, date and time parsing, JSON text values, image
  decoding, SHA-256, e-mail syntax, HTML
  detection, number parsing) sit behind small trusted wrappers whose doc
  comments say what is assumed.
- `tests/` holds the library's tests.
- `app/` is the program around the library: configuration from the
  environment, the MariaDB store, the axum routes and extractors, the JSON
  forms of the bodies, reading the problem data directory, seeding, and the
  S3 image storage.

## Running

    AUTH_MODE=demo DATABASE_URL=mysql://... server
    DATABASE_URL=mysql://... server seed-problem-data <problem-data-directory>

The server reads its OpenAPI document from `OPENAPI_DOCUMENT_PATH`
(default `openapi/openapi-v1.yaml`) and its database migrations from
`migrations/`.

The routes for uploading and listing problem assets are not served: the
store has no operations for asset uploads or for creating problems, so only
their decisions (in `src/uploads.rs`) exist, and the server starts without an
image storage configured.
