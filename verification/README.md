# pronto

A zero-configuration build tool for C projects, as a verified library and a
thin command-line program.

- `src/` is the library, verified with Verus: the command-line grammar
  (`cli::args`, and the grammar without program words in
  `helpers::cli::argparser`), the search
  for the project root and the `.pronto` directories (`project`), the registry
  of built executables and its file format (`project::executables`,
  `build_dir::executables`), the `.gitignore` update (`project::gitignore`),
  the dependency files that `gcc -MMD` writes (`depfile`,
  `build_dir::dependencies`, `helpers::gcc::dependencies`), the order in which
  sources are compiled (`build_dir::compiler`), gcc's arguments and failures
  (`toolchain::gcc`, `build_dir::linker`) and release tags (`versionning`).
  `text` holds the string operations these are written with, and `paths` the
  calls into `std::path` and the file-system queries, whose contracts are
  trusted.
- `app/` is the program: it reads and writes files, runs gcc, curl and the
  built executables, and prints.
- `tests/` runs the library on concrete values.
