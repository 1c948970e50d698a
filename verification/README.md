# HyperType

The core of a text expander, written and verified in Verus. It keeps snippets,
finds the one whose trigger was just typed, decides how its text reaches the
focused window, and says what to do to the system's hotkeys so that they stay in
step with the stored shortcuts. `src/laws/commands.rs` states exactly when they
do: an import of two triggers that are equal once trimmed can leave them apart.

- `src/` is the verified library. Every function has a contract; `src/laws/`
  proves what holds across functions (what a change undoes, what is read back,
  that no snippet is lost, that nothing fires inside a word, that the user's
  clipboard comes back).
- `app/` is the desktop side: threads, locks, the clock, files, the Windows
  hooks and the Tauri commands. What it asks of the desktop is the `Host` trait.
- `tests/` runs the library.

The library holds no global state and makes no system call. A command that
needs the system in its midst (registering a hotkey, taking a snapshot of the
clipboard) is a step function: it returns an action, and is called again with
what came of it.

Four things are taken on trust, each stated where it is used: that
`String::push` appends a character, that `char::is_alphanumeric` and
`str::to_lowercase` are functions of their argument, and that collecting a hash
map into a vector gives every entry once. So are vstd's own specifications of
strings, vectors and hash maps.
