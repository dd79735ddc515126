# WinShell

A native multi-tab terminal for Windows built around real Bash (Git for
Windows), PowerShell and CMD sessions on ConPTY.

The crate is a library verified with Verus, and a desktop program around it.

- `src/` is the verified library: key and paste encoding, shell-integration
  marks read from PTY output, grid sizes and cell colors, window titles, the
  prompt line, themes and their colors, configuration checks, interface
  languages, command suggestions and history, shell profiles and their
  launch commands, the command line, the workspace's tabs and overlays, the
  terminal view's decisions (keys, mouse reports, wheel, search) and the
  smoke-test probes. Each public function states what it returns in its
  contract; the laws of the library are public proof functions.
- `app/` is the program: configuration files, locating Bash, the PTY session
  and its threads, the GPUI window, and the command-line entry point.
- `app/bash_integration.rs` holds the Bash start-up file that marks
  prompts and the working directory for the terminal.
- `tests/` runs the library on concrete values.
