# cinit

A small tool that sets up C projects built with gcc on Windows and keeps
their configuration: cflags, dependencies downloaded from GitHub release
archives, and the batch scripts that build, run and set up the project.

- `src/` is the library, verified with Verus: the project configuration and
  its files (`init.rs`), cflags editing (`cflags.rs`), the dependency list and
  its file format (`dependency.rs`), the text of the batch scripts
  (`script_builder.rs`), tokenizing and joining text (`text.rs`), and the
  errors (`common.rs`).
- `app/` is the command line: it parses the command with clap, reads the
  project's files, hands their contents to the library and carries out the
  file changes the library decides on.
- The template files a new project is written from (`main_default.c`,
  `main_raylib.c`, `gitignore_default`, `clang_format_default`) are read at
  run time from a `templates` folder beside the executable.
