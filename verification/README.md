# ccs-proxy

A local proxy between an app and a custom upstream service. It serves HTTPS and WSS on
`localhost:8000`, forwards every request to the upstream service, and replays the login headers that
it saw last where a request lacks them.

The decisions of the proxy are a library that is verified with Verus; the program around it does the
input and output.

| Directory | What it holds |
| --------- | ------------- |
| `src/`    | the verified library |
| `tests/`  | its tests, with the real HTTP, URL and certificate crates |
| `app/`    | the program: command line, server, files and system commands |

## The library

| Module | What it decides |
| ------ | --------------- |
| `text`         | splitting, trimming, comparing and writing text |
| `headers`      | what an HTTP header map holds, and the operations on it |
| `forward`      | which headers and bodies are passed on |
| `auth`         | which login headers are remembered and replayed |
| `upstream`     | the URL of each upstream request |
| `websocket`    | the upstream WebSocket handshake and its messages |
| `preview`      | short texts for the log and for error replies |
| `proxy`        | what is done with a request, step by step |
| `config`       | defaults, and where the certificates are kept |
| `certificates` | the local authority and the server certificate |
| `tls`          | how the program gets a trusted certificate, step by step |
| `directory`    | what a run of these steps finds in the certificate directory and leaves there |
| `trust`        | the commands for macOS and Windows |
| `linux`        | the trust of the system and of browsers on Linux, step by step |
| `error`        | what can go wrong, with the texts for the user |

Where the program has to do something between two decisions, the library names the next action and
takes what came of it; the program only carries actions out.

Outside crates are called through small functions whose contracts are taken for granted. Each has a
comment that says what is claimed of the crate.
