# gruct_server

The request-handling logic of a small server that stores git repositories and
git keys, verified with Verus.

- `src/` is the verified library: parsing of request lines, query strings and
  header lines (`request`), routing and password checks (`routing`, `config`),
  the answers to each kind of request (`handlers`), the exact HTTP text that is
  written (`response`), text and number primitives (`text`, `number`), the
  stored data types (`models`, `storage`), and the trusted calls into `std`,
  `base64` and `serde_json` (`outside`).
- `app/` is the program around it: the TCP listener, reading requests, path
  validation with `path-security`, the file system, JSON files with `serde`.
- `tests/` runs the library on concrete requests.
