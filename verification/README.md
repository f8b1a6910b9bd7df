# DSH++ desktop control center

The control center starts and watches the local DeepSeek Harness (DSH) web
service, the MCA capability layer and the browser gateway, writes the DSH
profile of this application, installs the browser extension, and checks for
updates.

- `src/` is the verified library (Verus). It holds the rules and texts the
  control center works by: the configuration and its validation, the service
  state machine, the update report and plan, the workspace registry merge (on
  the registry document), the extension install states, the system proxy
  parsing, the DSH profile texts and documents, the merge of the vision and
  image-capable providers into the DSH settings, the CLI discovery order, and
  the runtime layout choices. Each public function has a contract; the laws
  that tie several functions together are public proof functions named `law_*`.
- `app/` is the Tauri program around it: processes, files, HTTP, the Windows
  registry and the windows. It looks at the machine and hands what it saw to the
  library.
- `tests/` runs the library on concrete values.
