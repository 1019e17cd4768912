# krate

A terminal downloader and updater for Minecraft server plugins, with its
core verified in Verus.

- `src/` is the verified library: the order of Minecraft versions, the
  Minecraft versions and loaders a plugin offers, download plans, the install
  manifest, byte and progress texts, the provider addresses and answers, the
  retry rule, and the decisions of the selection and input screens.
- `app/` is the program around it: command line, configuration and manifest
  files, HTTP requests, the terminal screens and the command flows.
- `tests/` runs the library on concrete values.
