# cyberorganism

A keyboard-driven outliner for tasks, with a feed of suggestions from the
Genius Platform API.  The library in `src/` holds the logic, each function
with a contract that Verus proves; `app/` runs it in a terminal and serves a
shell to browsers.

## Layout

- `src/taskstore.rs`, `src/taskstore/operations.rs`: tasks, their
  containers and status, lookups by id and by fuzzy content match, and the
  list operations.
- `src/task_index.rs`: hierarchical indices such as `1.2.3`, read and
  written.
- `src/display_container.rs`: what the outliner lists and in what order,
  the focus, the input field, folded tasks, and the activity log.
- `src/commands.rs`: parsing the input into commands and running them.
- `src/keyhandler.rs`: the terminal's keys and key combinations.
- `src/listing.rs`: the listing of a container with each task's index.
- `src/tui/rendering.rs`: the terminal layout, task lines and input
  wrapping, as text and styles.
- `src/gui/`: keyboard handling, task list and feed state of the graphical
  front end.
- `src/genius_platform/`: the Genius API client, the bridge that keeps
  results and pages, and the feed's keys.
- `src/config.rs`, `src/terminal.rs`: configuration defaults and the
  terminal server's messages.
- `app/`: the terminal program and server: files, network, terminal.

Run the terminal interface with the program alone, or the terminal server
with the argument `server`.
