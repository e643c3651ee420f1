# otel-logger

A receiver for the OpenTelemetry data of coding agents (the Anthropic agent and
Codex). It takes OTLP over gRPC and HTTP, keeps every batch as one JSON line,
shows it as text, counts tokens, costs and durations, and sends batches on to
other collectors.

The logic is a library written in Verus, with contracts that are proved. The
program around it is ordinary Rust.

## Layout

`src/` is the verified library.

| Module | What it holds |
|---|---|
| `otlp`, `proto` | telemetry as the library reads it |
| `aggregator` | usage totals: `model` says what a batch does to them, `laws`, `conservation`, `balance` and `naming` what holds across batches |
| `format` | batches and totals as text; `laws` and `color` say what holds of all of it |
| `jsonl` | batches as JSON lines |
| `sink` | what happens to a batch; `sink::retention` says which daily files go |
| `http`, `grpc` | how a request is read and answered |
| `server` | how the process starts to stop, drains, flushes and ends |
| `forward` | routes: `router` splits batches, `client` checks endpoints and headers, `worker` tries again and drains |
| `cli`, `config`, `path` | settings out of the command line, the environment and the configuration file; `cli::order` says that the order of routes does not matter |
| `double`, `number`, `text`, `clock`, `table`, `sorted`, `agent` | what the others are built on |

`tests/` runs the library on concrete values. `app/` is the program: arguments,
files, sockets and threads.

## What is not proved

Calls into other crates stand in small functions whose contracts are taken on
trust; the comment above each names the function it calls and what is claimed of
it. Where a result is only named (a URL in its normal form, the JSON of a
request), contracts speak of that name. `app/` is not verified; it hands plain
values to the library and carries out what the library decides.

Costs are kept in units of 2^-64 of a dollar, one unit at the least and up to
2^64 dollars, so sums are exact. Doubles are held by their binary encoding.
