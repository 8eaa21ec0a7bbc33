# skyproxy

The decision core of an S3 proxy that keeps the copies of an object in several
object stores. A directory service knows where the copies are; the proxy asks it,
sends the client's requests to the stores, and tells it what came of them.

The library in `src/` performs no I/O. Every operation is a chain of small states:
each takes a reply and gives the next state and the next request, or the answer to
the client. Every function carries a contract, and Verus proves all of them but four,
which it believes: those of the functions that call other crates. These are
`display_error` in `error`, which calls `s3s`, and `parse_rfc3339`, `format_date_time`
and `utc_now` in `timestamp`, which call `s3s` and `chrono`.

- `proxy`: the regions and their stores, and the lookup of an object
- `buckets`, `listing`, `objects`, `multipart`, `deletion`: the operations
- `parts`: the parts of a multipart upload in the order in which they are joined
- `models`, `dto`: what is said to the directory, to the stores and to the client
- `error`, `timestamp`, `text`: errors, dates and text
- `laws`: what holds across the steps of an operation, and across operations

`app/` is the asynchronous service around the library: it implements `s3s::S3`,
sends the requests and hands the replies back. The clients of the object stores and
of the directory service are given to it.

`tests/` plays whole operations against a directory and stores in memory, and tries
the steps one by one.
