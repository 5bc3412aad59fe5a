# opencode_client

A client of the HTTP interface of an opencode server, verified with Verus.

- `src/client.rs`: `OpencodeClient`, which gives the request of each operation.
- `src/request.rs`: requests.
- `src/reply.rs`: what becomes of a response, by its status and its body.
- `src/page.rs`: pages of session messages, and the check that paging advances.
- `src/cursor.rs`: the cursors of messages.
- `src/base64url.rs`: base64 for URLs; what is believed of `base64`.
- `src/json.rs`: JSON values; what is believed of `serde_json`.
- `src/text.rs`: string operations.
- `app/`: sends the requests with `reqwest`.
