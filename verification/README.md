# tedge_core

The decisions of a thin-edge device agent, verified with Verus.

- `src/transfer.rs`: the agent's file-transfer endpoint as an exchange of
  actions and outcomes (`Stage::begin`, `Stage::step`) for GET, PUT and
  DELETE, with laws on the reply that each request gets.
- `src/paths.rs`: splitting a request path into a directory and a file name,
  and joining paths.
- `src/path_key.rs`: the key that two spellings of one path share.
- `src/watch.rs`: which watcher events become file events, and the record of
  what each watched directory or file is watched for.
- `src/reconnect.rs`: the `tedge reconnect` command, the service operations
  that it runs and where running them stops.
- `src/tedge_cli.rs`: the `tedge` command lines of the integration helpers.

`app/` holds the I/O around it: the hyper/routerify server, the notify-based
event stream, the clap command line and the process helpers.
