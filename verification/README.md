# kafpy

The core of a Kafka consumer runtime for Python handlers, written in Verus.

`src/` is the verified library:

- `routing/`: the routing chain (topic pattern, header, key, callback router,
  then the default handler) and its routers, built from configured rules.
- `retry.rs`, `worker_pool/settle.rs`: how a handler's result settles a
  message: commit, retry with a backoff step, or dead-letter.
- `worker_pool/`: the worker steps as state machines, the per-partition batch
  accumulator, fan-out branches and their dead letters, streaming handlers,
  and concurrency limits.
- `observability/`: metric labels, Kafka lag metrics, the runtime snapshot
  and trace-context propagation.
- `shutdown.rs`, `producer.rs`, `handler.rs`: the shutdown lifecycle, the
  producer settings, and handler configuration.

Each public function states what it returns in its contract; the laws that
relate several calls are public proof functions named `law_*`.

`app/` is the plain Rust around it: the Python bindings, the async worker
loops that carry out what the library decides, metrics sinks, and retry
delays with jitter.

`tests/` runs the library on concrete values.
