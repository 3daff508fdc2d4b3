# s3_endpoint

An S3-compatible endpoint for uploads: `PutObject`, `GetObject` with ranges, `HeadObject`,
`HeadBucket`, `DeleteObject` and multipart uploads, with AWS Signature Version 4 in headers and
presigned URLs, `aws-chunked` bodies, checksums and trailers, upload processors and application
hooks. The library in `src/` decides everything about a request; it is written in Verus, and its
functions are proved to do what their contracts say. `app/` is the server around it: sockets, files,
JSON and XML, the clock.

## Layout

| Module | What it is about |
| --- | --- |
| `config`, `credentials`, `init` | configuration, credentials, allow-lists and their validation |
| `auth` | signatures, presigned URLs, who may do what |
| `s3` | buckets, keys, upload IDs, part numbers, ETags; which bucket and key a request names |
| `http`, `response`, `error` | requests, responses and S3 errors |
| `body` | body lengths, payload hashes, `aws-chunked` decoding, checksums, receiving an upload |
| `handlers` | which operation a request is for, what is done for it, and the response |
| `storage` | objects, sessions and parts, and the order in which files are changed |
| `middleware`, `hooks`, `admission` | upload processors, application hooks, limits on concurrency |
| `hashing`, `encoding`, `text`, `time`, `collections` | digests, encodings and text |

Work that takes files, sockets or the application's own code is split into steps: a value of the
library says which step is due, the server carries it out and reports what came of it. Such values
are `handlers::exchange::NextStep` for a request as a whole, `body::upload::UploadReceiver` for the
body of an upload, `storage::publication::Publication`, `storage::commit::ObjectCommit` and
`storage::part_commit::PartCommit` for what is stored, and `middleware::ProcessorRun` for upload
processors.

## Contracts and laws

Contracts speak of mathematical values: text is a sequence of characters, a request is its method,
path, query and header fields, a store is a map from paths to bytes. Functions named `law_..` state
what holds of several functions together, for instance

- `handlers::exchange::law_only_authorized_requests_are_carried_out`,
- `handlers::readback::law_reads_give_back_writes`,
- `body::parser::law_pieces_do_not_matter`,
- `storage::commit::law_commits_are_all_or_nothing`,
- `storage::publication::law_publications_are_all_or_nothing`.

## What is not proved

Digests, HMAC, base64, percent-decoding, UUIDs, dates, `DashMap` and `Semaphore` come from other
crates. The library reaches each of them through one small function, whose comment says what is
believed of it: these are in `hashing`, `encoding`, `text`, `time`, `config`, `admission` and
`storage::sessions`. Nothing is proved of `app/`.
