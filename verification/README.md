# tmux_mcp

The control plane of a tmux server for agents: it decides which commands may run in which pane,
follows them to their end, records what was done, and answers the web console. The library is
written in Verus; what each function returns or changes is stated in its contract and proved.

`src/` is the library. It does no I/O: clocks, files, processes and requests come in as plain
values, and what is to be done next goes out as a value.

| Modules | What they are about |
| --- | --- |
| `commands`, `watch`, `markers`, `guarantees` | commands in panes: one per pane, ended by a private side channel only |
| `security`, `statements`, `shell`, `tools`, `paths` | the policy: tools, sockets, sessions, panes, commands and buffer paths |
| `control`, `control_client`, `store`, `hub` | records of actions, the approval gate, the log and its compaction |
| `web`, `page` | requests to the web console and the page it serves |
| `gpu_monitor`, `gpu_protocol`, `gpu_watch` | waiting for idle GPUs on a remote host |
| `targets`, `types`, `timing`, `errors`, `tmux` | names, records and measurements shared by the rest |
| `text`, `keyed`, `seqs`, `ids`, `patterns` | text, maps and lists, and what other crates are called for |

Calls into other crates stand in `ids`, `patterns`, `statements`, `control` and `web`, each in a
function of its own whose contract says what is relied on.

`app/` holds the adapters: tmux and SSH processes, files, the environment, HTTP, JSON and TOML.
`tests/` runs the library on concrete values.
