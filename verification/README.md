# stellar_doctor

The rules behind the `doctor` command of the Stellar CLI, verified with Verus:
which questions the command asks the machine it runs on, in which order, and what
the answers make of the report.

- `src/` is the library. It does no I/O: `Stage::request` says what to ask next, and
  `Cmd::run` takes the answer, writes lines to a `Print`, and says where the run
  stands. Contracts are stated over the views of these types; what holds of several
  calls stands in the `law_` functions at the end of each module.
- `app/` asks the questions: it looks through `PATH`, runs executables under a
  timeout, reads the version cache through the rest of the CLI, and writes the lines.
- `tests/` runs the library on concrete answers.

| module      | what it holds                                                |
|-------------|--------------------------------------------------------------|
| `command`   | the stages of a run, and the whole report                    |
| `installs`  | what the executables on `PATH` amount to                     |
| `probe`     | which executables are asked, how, and what they answered     |
| `cache`     | the upgrade check and who wrote the version cache            |
| `toolchain` | Rust, its targets, the container engine, optional features   |
| `settings`  | directories and the XDR revision                             |
| `networks`  | default and saved networks                                   |
| `version`   | semantic versions: how they are written, read and ordered    |
| `text`      | trimming, lines, words, numbers, quoting                     |
| `print`     | the lines of the report                                      |
| `error`     | what can end a run early                                     |
