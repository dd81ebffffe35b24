# mini_x

A small Twitter-like service: people register, log in, post messages,
follow each other and read timelines; a JSON API serves the same data to a
simulator.

`src/` is the verified library:

- `database.rs` — the store (users, messages, who follows whom) and every
  query the service makes of it, with contracts over the tables;
- `models.rs` — the rows of the tables;
- `api/` — what the JSON API answers and changes for each request;
- `frontend/` — what each web page shows and what each form changes;
- `standalone.rs` — the single-server variant of pages and API;
- `flash_messages.rs` — the notes carried to the next page in the session;
- `validation.rs` — why a registration is refused;
- `text.rs` — byte order of strings, comma lists, hexadecimal and decimal
  text;
- `wrappers.rs` — the calls into std, `pwhash`, `md-5` and `chrono`, with
  the contracts that the library relies on.

`app/` holds the actix-web servers around it: routing, sessions, identities,
JSON and HTML.
