# fcd

The logic of the FCD terminal file manager, written in Verus and proved
against its contracts, with a thin terminal front end around it.

- `src/` is the verified library. Each module states what its functions do
  over mathematical models (`Seq`, `Map`, spec functions) and proves it:
  the file panel and its keys, the window layout, directory listings and
  their sort orders, the fuzzy finder, command templates and globs,
  archive path mapping, bookmarks, directory scans, copy, move and delete
  jobs, job reports and interrupted jobs, the text, directory and hex
  viewers, the dialogs' keyboard focus, line editing and text layout.
  Calls into other crates (path handling, regular expressions, fuzzy
  matching, Unicode width and normalization, shell quoting) stand behind
  small trusted wrappers whose contracts name what the call returns.
- `tests/` runs the library on concrete cases.
- `app/` reads the terminal and the file system, runs programs and mounts
  archives, and hands the library plain values.
