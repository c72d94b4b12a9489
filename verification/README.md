# ttyd

Share a terminal over the web. A browser opens a page, the page opens a WebSocket, and behind the
WebSocket runs a command in a pseudo terminal.

`src/` holds everything that the server decides, as a library that is verified with Verus: each
function states in its contract what it returns, and each module proves what holds of all inputs.
It opens no socket and starts no process. `app/` is the program around it: sockets, TLS, processes
and timers. `tests/` run the library on concrete values.

| Module | Decides |
| --- | --- |
| `cli` | what the command line means, and the configuration it makes |
| `auth` | who is let in: by a credential, by a header of a trusted proxy, or by an outside endpoint |
| `http` | which paths there are, and what is answered on them |
| `ws` | who may open a WebSocket, and what a session does at each event |
| `protocol` | how the frames of a session look |
| `pty` | which child is started, how its input is counted, and whom a signal reaches |
| `serve` | where the server listens, who owns its socket, and how privileges are given up |
| `tls` | which certificates and which key TLS is served with, and whether clients need one |
| `shutdown` | what a signal does, how long sessions are waited for, and the exit status |
| `state` | how many clients may be connected, and which children run |
| `jsonc` | JSON values and their rendering |
| `html`, `headers`, `logging`, `utils`, `text`, `number` | what the others are built from |

Calls into other crates stand in small functions marked `#[verifier::external_body]`. The comment
above each of them says what is taken for granted.
