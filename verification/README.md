# usbsrctl

The controller behind the USB SampleRate Changer WebUI: it validates the
WebUI's commands, renders the shell programs that run the upstream
`USB_SampleRate_Changer` scripts, keeps the versioned settings file, and
reports each operation in a fixed `key=value` contract.

## Layout

- `src/` is the library, written and proved with Verus:
  - `cli`, `domain`, `catalog`: the command line and the settings it names;
  - `state`, `state_file`, `state_laws`: the settings file, its migrations,
    and the proof that what is written reads back;
  - `scripts`, `reapply`, `operation`, `finalize`, `entry`: the generated
    scripts, the phased and batched executions, and how an operation's
    outcome is classified, persisted, audited and reported;
  - `capabilities`, `android`: the device's installation record and what
    the Android dumps show;
  - `dynamic_direct`: the Direct PCM policy generated from the system's own
    audio policy XML (parsed with `roxmltree`, hashed with `sha2`);
  - `audioserver_priority`: the thread-priority feature and its baseline
    file;
  - `protocol`, `status`: the JSON schema and the text reports.
- `app/` is the executable: file and process I/O, locks, timeouts and the
  loops that wait on Android, each decision taken by the library.
- `tests/` runs the library on concrete values.
