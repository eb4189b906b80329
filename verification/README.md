# lease-lint

A library, verified with Verus, that audits distributed lease and fencing-token logs, and a small
command line program around it. It catches actions from stale owners, expired leases, invalid
renewals and revocations, regressing epochs, and out-of-order event streams.

## The library

- `event`, `finding`: the events of a stream, the violations found in it, and the report.
- `rules`: the rules of a single lease and what each event makes of it.
- `order`: the rules on the order of events.
- `history`: what an audit says of a sequence of events.
- `auditor`: an audit that is fed line by line.
- `lines`, `audit`: the lines of a byte stream, and the audit of a whole stream.
- `message`, `text`, `human`, `error`: the wording of messages, reports and errors.
- `laws`: what holds of every audit, as proved statements.

`audit` takes the bytes of a stream, the grace in milliseconds, and a function that decodes the
text of one line into an `Event`. Decoding itself is the caller's: the program decodes JSON with
serde.

## What is trusted

Three functions call code that is not verified, and say so where they stand: quoting a string as
`{:?}` does, decoding UTF-8, and making the I/O error for a stream that is not UTF-8.

## The program

`app/` reads a file or standard input and prints the report for a person or as JSON. Exit codes are
stable for automation:

- `0`: parsed successfully with no violations
- `1`: input, I/O, or JSON error
- `2`: parsed successfully and found at least one violation
