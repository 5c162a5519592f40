# mcp_compressor_core

Client generation and host transforms for MCP tool servers behind a compressing proxy, verified
with Verus.

- `src/client_gen` renders the command-line client of a live session: a shell script and, on
  Windows, a batch file, around one Python program. The scripts of earlier sessions are read back
  to find the bridges of sessions that share a command.
- `src/ffi` plans how a host offers the tools of a server: as a command, as commands of an
  in-process shell, or as a Python or TypeScript module. It also turns tool results into text.
- `src/cli` holds the help texts and the names of subcommands.
- The other modules of `src` hold what these are made of: JSON values and their text, base64,
  decimal numbers, sorted maps, paths and text.

Functions whose names start with `law_` state what holds of the library as a whole: for example,
that the bridges read from a generated script are those that were written into it.

`app` holds what touches the machine: serialised values, files, and connections to bridges.
