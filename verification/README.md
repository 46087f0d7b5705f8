# quickclipboard

The verified core of a clipboard history manager, written in Verus.

- `src/` holds the decisions and data transformations of the application,
  each with a contract that Verus proves: the screenshot session state
  machine, the clipboard monitor's pause/capture/de-duplication state, the
  paste payload builders, history query building and synchronisation merge
  rules, settings normalisation, migration and loading decisions, path and
  file-name sanitisation for data received from peers, backup contents and
  retention, data-directory moves and archive import planning,
  recording and image-encoding pipelines, and the key-value store.
- Calls into `sha2`, `uuid`, `image`, `base64` and `serde_json` sit behind
  small trusted wrappers whose results are named by uninterpreted spec
  functions; everything around them is verified.
- `app/` is a thin command-line front end that does the file I/O and JSON
  parsing and hands plain values to the library.
- `tests/` runs the library on concrete inputs.
