# hi_kafka

The PHP side of an embedded Kafka worker, verified with Verus.

PHP processes on one machine share a worker process, which talks to Kafka, over a Unix
socket. The library decides how the worker is started and configured, how connections to
it are pooled, how requests and answers are put into frames, and what the PHP functions
make of their arguments and of the answers. Every function states what it returns, and the
proofs are part of the source.

| module | what it holds |
| --- | --- |
| `spawn`, `worker_health` | starting the worker once, and remembering that it is up |
| `ini_config` | settings: environment, then `php.ini`, then default |
| `pool` | connections kept for reuse, one pool per socket |
| `messages`, `protocol`, `error` | requests, answers, frames and the error reply |
| `arguments`, `php`, `php_value` | the PHP functions, their arguments and results |
| `path`, `text`, `number`, `wire` | paths, decimal numbers, casts and byte buffers |

`src/` holds the library, `tests/` its tests, and `app/` the extension around it: sockets,
processes and the engine of PHP. `app/` needs PHP to build. The frame codec, the requests
and the worker are linked in through `app/host.rs`.
