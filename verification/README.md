# emitter

A synthetic log generator: simulated services produce structured log entries
from a pool of unique, combinatorially generated messages; the entries are
batched and written to one or more sinks (standard output, Qdrant,
Elasticsearch, pgvector, and a live WebSocket dashboard).

## Layout

- `src/` — the verified library (Verus):
  - `emitter.rs`: message patterns and slot words, random message generation,
    the pool of distinct messages, and when an emitter keeps running;
  - `buffer.rs`: the batching decisions (flush on a full batch, on the flush
    timer, and on close) with laws that every entry is written exactly once,
    in order, in non-empty batches no larger than the capacity;
  - `placeholders.rs`: finding and substituting `${NAME}` placeholders;
  - `config.rs`, `log_entry.rs`: configuration types, defaults, index modes,
    level names;
  - `sink/`: per-sink configuration and defaults, index definitions (JSON),
    SQL statements, collection lookup, the dashboard's per-flush counts, and
    the standard-output line;
  - `text.rs`: decimal rendering and joining.
- `app/` — the program around it: configuration loading, environment lookups,
  the async receive and emission loops, floating-point sampling, embeddings,
  and the network clients of the sinks.
- `tests/` — tests of the library on concrete values.
