# wrkflw_actions

Resolves the actions that GitHub workflows use, with the logic verified by Verus.

- `src/` is the verified library.
  - `action`: the reading of an `action.yml` into the type of the action.
  - `cache`: the bounded first-in, first-out cache of resolved actions.
  - `fetch`: the fetch of one metadata file, as a machine from events to tasks.
  - `resolve`: the resolution of an action from the cache, `action.yml` or `action.yaml`.
  - `workflow`: workflow files, their triggers and the references in them.
  - `yaml`, `http`, `text`: YAML trees, replies and requests, texts.
- `app/` does the input and output: HTTP, the environment, the file system, serde.
- `tests/` runs the library.

Functions whose names begin with `law_` state what holds of the library as a whole.
