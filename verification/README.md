# rust_task_db

A relational task manager (projects, tasks, tags) over GlueSQL, with a Query Lab that
shows the plans GlueSQL makes for a SQL text and the storage calls a run makes.

The library in `src/` is verified with Verus:

- `cli`, `command`: the command line grammar, parsed with an exact specification.
- `repository/sql.rs`: reading result rows into tasks, projects, tags and counts; SQL
  string literals; id allocation from the largest id in use and the stored sequence.
- `repository/gluesql_repository.rs`: the repository over a SQL engine. Every batch
  of SQL it sends is recorded in a ghost log with the reply, and every SQL text it has
  the engine plan, and every planned statement it has the engine run, in two more
  ghost logs with what came back. Each operation states which batches it sends, in
  which order, inside which transaction, and what it makes of the replies; the
  operations other than planning and running leave the two other logs as they were.
  The engine itself can be handed out (`engine_mut`) to adjust its settings; what is
  done through it is not recorded.
- `repository/mod.rs`: the repository traits and the JSON task list.
- `query_lab`: plan trees built from planned statements, access paths, the text
  report, the scenarios, and `analyze`, which states the one planning call it makes,
  the planned statements it runs (all of them, in order, only with runtime on), and
  the counts it reports over their replies.
- `service`, `repl`, `output`: the operations of the program, the decisions of the SQL
  prompt, and the printed lines.

`app/` is the program around it: the command line entry, the on-disk (Sled) database,
GlueSQL storage traits for the counting storage, the JSON file, and JSON output.
