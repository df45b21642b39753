# Comb

Comb turns authorized Buzz conversations into reviewable, evidence-backed
organizational memory: proposals whose claims cite signed source events,
reviews signed by the humans who decide, ratified records, and invalidation
when evidence disappears.

This crate is written in Verus. `src/` is the verified library:

| Module | What it holds |
| --- | --- |
| `text`, `order`, `keyed`, `json`, `digest` | canonical text order, sorted collections, JSON text, JCS digests and hexadecimal |
| `error`, `evidence`, `claim`, `coverage`, `snapshot`, `proposal`, `review`, `record`, `invalidation` | the versioned artifacts, their normalization, content addresses and validation |
| `graph` | the record supersession graph and its cycle check |
| `envelope`, `ratify`, `projection` | signed envelopes, ratification policies and the tally of reviews, and the projection that folds events |
| `normal_form`, `laws` | laws of normalization and sealing, and properties of the projection across calls |
| `buzz`, `relay`, `cli`, `store`, `observer` | the compatibility protocol's tags and signing, the relay conversation, the decisions of the proof run, the metadata receipts and the observer's settings |

`app/` is the program around it: the command line, the WebSocket client,
the SQLite store and the observer loop.
