# servo

The decision logic of a browser engine's cooperating tasks, verified with Verus.

Each task is a state machine. It takes one message and returns the actions that its surroundings
have to perform, in order. Objects that live elsewhere (nodes, channels, JavaScript objects) are
named by handles.

- `src/engine.rs`: pipelines and the compositor token
- `src/render_task.rs`, `src/tiling.rs`: rendering of layers, tile by tile
- `src/script_task.rs`: documents, scripts, layout requests and events
- `src/script_laws.rs`, `src/script_history.rs`: what holds of the script task step by step, and
  over its whole course
- `src/page.rs`, `src/navigation.rs`, `src/layout.rs`, `src/dom.rs`, `src/url.rs`: what the script
  task works on
- `src/bindings/`: how native objects are tied to JavaScript objects
- `src/ids.rs`, `src/geometry.rs`: what the tasks share
- `app/`: the tasks as threads, with their channels
