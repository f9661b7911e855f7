# notebook_editor

The logic of an editor for Jupyter notebooks, verified with Verus: which cells there are and in
which order, what is selected, what has to be saved, which kernel is started, which cell is run
when, what becomes of the messages of the kernel, and what the controls around the cells show.

## Layout

- `src/` is the library. `state` holds the editor and the model that every contract speaks of;
  `editor` opens, arranges and saves cells; `execution` runs them; `session` deals with the kernel;
  `events` with what cells and users ask for; `controls` with what is shown. Below them lie the
  cells (`cell`), the stored notebook (`notebook`, `document`, `json`, `ids`), the file (`item`),
  kernels and their messages (`kernel`, `message`), completions (`completion`), a map keyed by
  identifiers (`id_map`) and texts (`text`). `laws` states what holds of the editor as a whole, and
  `persistence` what of a notebook survives being saved and read again.
- `tests/` runs the library, with the crates that it calls.
- `app/` is a host for the editor: files, the kernel's messages, and waiting for answers. It leaves
  kernels, languages and the looks of outputs to a trait.

## What is trusted

The notebook format, JSON, random identifiers, the messages of the Jupyter protocol and channels
come from the crates `nbformat`, `serde_json`, `uuid`, `jupyter-protocol` and `futures`. Each call is
behind a small function marked `#[verifier::external_body]`, or an `assume_specification`, whose
comment says what is claimed of it. The records of what the kernel's channel took or refused, of what
reached those who asked for completions or was lost, and of which identifiers were drawn are set by
such functions alone, by what their calls return. Everything else in `src/` is proved; `app/` is not.
