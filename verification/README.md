# tiez_memory

Gives memory back to Windows while the main window of a desktop application with
an embedded WebView2 browser is hidden.

`src/` is a library verified with Verus. It makes every decision and no system
call: what deals with the system is written as steps, which take the state and the
answer to the last call and return the next call to make.

- `messages`: what a window message says about the window
- `generation`: the wrapping counter that makes pending releases stale
- `window_visibility`: announcing that the window is shown again, and releasing
  memory some time after it was hidden
- `idle_memory`: suspending the browser while the window is hidden, and waking it
- `process_name`, `process_tree`: finding the processes of the browser
- `working_set`: enumerating them and emptying their working sets

What holds of whole runs is stated by the proof functions named `law_...`.

`app/` makes the calls. `tests/` runs the library on concrete values.
