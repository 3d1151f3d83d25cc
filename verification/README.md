# plexus

The verified core of the Plexus block extractor.

- `src/time.rs`: durations as a count of nanoseconds.
- `src/path.rs`: paths as their bytes, joined as `Path::join` joins them on Unix; decimal numbers.
- `src/cache_path.rs`: the cache layout `root/{chain_id}/{block_number}/…`.
- `src/extractor/cache/`: the extractor's cache layout and the staging path of a write.
- `src/extractor/rpc/`: client settings, error classification, the retry policy
  (exponential backoff, full jitter, `retry-after` floor, attempt budget) and the
  `429` signal of the transport.
- `app/`: file I/O, the reqwest transport, the asynchronous retry loop and the client.
