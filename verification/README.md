# execution_engine

A workflow execution engine whose decisions are verified with Verus.

- `src/` is the verified library: building a job from a workflow (`workflow`), the node
  types and what running each one does (`node`), which nodes follow a finished one and
  when a job ends (`workflow::Job::next_node`, `executor`), the reactor's register of
  waiting activities (`reactor`), the spawner's register of running jobs (`spawner`), and
  the helpers they share (`registry`, `text`, `expression`, `channel`).
- `app/` is the program around it: reading workflow files, the JSON forms of the workflow
  types, the NATS connections, the tasks that await channels and activity futures, and the
  bot that answers activity requests.
- `tests/` runs the library on concrete workflows.
