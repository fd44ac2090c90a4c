# fos

Building blocks of a device-control runtime, written in Verus with their
behaviour stated as contracts and proved:

- `ratelimiter`: token bucket, leaky bucket, circuit breaker, and a factory.
- `schedule`: cron expressions, scheduled jobs, delayed jobs and their queue.
- `plugin`: plugin metadata, the loader registry, lifecycle state machine,
  plugin sandboxes with permissions and resource limits.
- `sandbox`: sandbox configuration, isolation rules, validators, sandbox
  snapshots.
- `rollback`: snapshots of operations, rollback execution and verification.
- `shutdown`: signals, task waiting, resource cleanup, the shutdown sequence.
- `skills`: skill definitions, versions and version locks, device adaptation.
- `security`, `stability`: penetration test results and stability test
  configuration.

Times are integers (milliseconds or nanoseconds); every function that reads a
clock has a twin ending in `_at` that takes the time as an argument and
carries the exact contract.

`src/` is the verified library. `app/` holds what cannot be verified: file
and format I/O (plugin discovery, skill loading), awaiting handlers and
sleeping loops, floating-point metrics, printing, and error types with
`Display`. `tests/` runs the library on concrete values.

The stability runners that drive the cache, lock and rollback services under
load (spawning tasks and measuring throughput in floating point) are not part
of this crate: those services are separate crates that are not dependencies
here. Only the test configuration, the runner's state and its errors are.
