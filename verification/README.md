# thuki_engine

The engine side of the Thuki desktop assistant, written and proved in Verus.

Thuki talks to a local retrieval engine (rag-engine): a process of its own that
runs models, searches documents and remembers sessions. `src/` holds the
decisions that Thuki makes around it, each with a contract:

| Module | What it decides |
| --- | --- |
| `config` | the settings, and which turns and starts follow from them |
| `client`, `wire` | what is asked of the engine |
| `metadata`, `preview` | what is shown of its reports |
| `prompt` | how a prompt quotes local context |
| `stream` | how an answer that comes in pieces is put together |
| `supervisor`, `error` | how the engine is started, waited for and stopped |
| `locate`, `path` | where its program and its data are |
| `render`, `yaml`, `endpoint` | how its configuration file reads |
| `proto` | which services are left out of its protobuf contract |
| `text`, `number` | trimming, searching and decimal numbers |

`app/` is the ordinary Rust around it: gRPC calls, the child process, files,
the clock, and the desktop shell. `tests/` runs the library.

The proofs rest on a few statements about the standard library, each next to
the function it speaks of: white space and appending to strings in `text`,
string maps in `metadata`, and paths in `path`.
