# copypathtool

A Windows context-menu tool: copy the selected paths, open CMD, PowerShell
or a console assistant in a folder, and rename a selection of files in a
batch, with a small settings window that adds or removes the menu entries
in the registry.

- `src/` is the library, verified with Verus: new names for batch renaming
  (search and replace, prefix, suffix, two-digit numbering), Windows path
  handling, the paths of a multi-file selection, the registry changes that
  install or remove the entries and the `reg.exe` arguments that make them,
  command-line dispatch, and the decisions of the two windows.
- `tests/` runs the library on concrete values.
- `app/` is the program around it: files, processes, `reg.exe`, the
  clipboard and the Win32 windows.

The console assistant is not named in the sources: the library takes its
title and program name as an `Assistant` value, and the program reads the
program name from the `COPYPATHTOOL_ASSISTANT` environment variable, at run
time or, failing that, at build time.  Build or run the program with that
variable set to the assistant's program name (lower case) to get the menu
entry, switch and registry keys under that name; removal only deletes the
keys of the assistant it is told about.
