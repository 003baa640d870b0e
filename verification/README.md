# portcull

`portcull` finds the processes that listen on TCP ports and kills them
(`lsof` on Linux and macOS, `netstat -ano` on Windows).

- `src/` is the verified library: reading `lsof` and `netstat` output
  (`lsof.rs`, `netstat.rs`, on the text functions of `text.rs`), choosing the
  lookup command and interpreting its result (`lookup.rs`), process names and
  signals (`processes.rs`), the kill session as a state machine (`kill.rs`),
  and the messages and exit statuses (`report.rs`). `foreign.rs` holds the
  contracts of the std and `sysinfo` functions that the library calls.
- `app/` is the program: it parses the command line, runs the lookup tool,
  and performs the requests of the kill session (prompt, signals, sleeps).
- `tests/` runs the library on concrete inputs.
