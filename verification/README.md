# launcher

A launcher that keeps an application up to date from a remote index of
files, then starts it.

- `src/` is the verified library (Verus): configuration and index types,
  the comparison of a downloaded index with the installed one, the update
  plan and the order in which it is applied, the per-file and progress
  decisions, the unpacking of zip archives, the MD5-checked copy of a
  download, string expansion of configuration texts, and the decision
  function of a whole launch.
- `app/` is the program around it: reading files, HTTP downloads, writing unpacked
  files, deleting, logging and starting the application.
- `tests/` exercises the library on concrete values.
