# skenion_runtime

Runtime-side logic of the Skenion patching environment, verified with Verus.

- `src/` is the verified library: the graph and node-definition data model
  (`contract`), control values and the control event machine
  (`control_value`, `control_table`, `control_state`), object text and the
  object-spec registry (`object_text`, `object_spec`), the first-party core
  node catalog (`nodes`), audio DSP block planning (`dsp`), undo/redo of
  editing history (`history`), the runtime session (`session`, `server`)
  and, for the realtime `node.input` command (`realtime`), the refusals of a
  frame, whether a remembered ack is replayed, the ack's status and flags,
  the summary of the applied inputs and the control event's message id.
  Connections, the remembered acks themselves and JSON framing stay with the
  server. Every public function states its result in its `ensures`; the
  `law_*` proof functions state properties that span calls.
- Some inputs come from components that are not part of this crate, and the
  functions that need them take them as arguments: the outcome of validating
  a project and ordering its execution (`build_audio_dsp_plan`, the session
  functions), the object-spec parser's reading and the port lists of core
  objects (`resolve_object_spec`), readings of float tokens
  (`resolve_object_text_v01`), a patch's interface digest, the next revision
  names of edited patches, and the sanitized id and definition id of a
  project patch in the catalog. Each contract says what the function does
  for every value of them.
- `tests/` exercises the library on concrete values.
- `app/` is the command line front end: file reading, JSON parsing, and the
  reading of floating-point numbers, which the library takes as bit patterns
  with their display text. Its `validate-node` and `validate-graph` commands
  check that a file parses into the document's shape; the schema and graph
  validators are not part of this crate.
