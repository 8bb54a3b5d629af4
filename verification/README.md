# shell-proxy

Run commands on a remote Linux host with persistent shell state: stdout, stderr,
stdin, exit codes and Ctrl+C are forwarded, and the working directory and the
shell state of a session last from one command to the next.

```
sp CLI / MCP --IPC--> local daemon (SSH connection + session state) --> sp-serve --> bash
```

- `src/` is the library, verified with Verus: wire framing, the stdout marker
  filter, script and request building, quoting, host resolution, and the
  decision machines of client, daemon and remote server. Its functions take and
  return plain values; times are milliseconds handed in by the caller.
- `app/` is the program around it: command line, sockets, SSH, processes, clocks.
- `tests/` runs the library on concrete values.

The remote server of a deployment is the same program started under the name
`sp-serve...`; `SP_SERVE_X86_64` and `SP_SERVE_AARCH64` name the binaries that
the daemon deploys. For hosts of its own architecture a Linux build deploys
itself when they name none.
