# reniced

`reniced` adjusts process priorities (nice value, OOM score, I/O class)
according to regex-based rules read from a configuration file.

## Layout

- `src/` — the verified library (Verus):
  - `config.rs`: the rule command grammar, `parse_rule`, reading a rule
    file's text (`parse_rules`) and choosing the rule file;
  - `actions.rs`: which adjustments the rules ask for on a process
    (`apply_rules`), the OOM score conversion;
  - `path.rs`: the file name of an executable path, in Unix or Windows syntax;
  - `number.rs`: decimal numbers as the commands write them;
  - `text.rs`: white space, decimal digits, trimming and lines;
  - `model.rs`: rules, processes and the regular expressions of the
    `regex` crate;
  - `platform/`: values for Linux (`ioprio_set`) and Windows (priority
    classes, I/O hints);
  - `cli.rs`, `logging.rs`, `lib.rs`: run options, logging set-up,
    the thread-request check.
- `app/` — the program around the library, for Linux and other Unix systems
  (on systems other than Linux, I/O priority rules are skipped with one
  warning): argument parsing (clap), logger
  installation, reading the rule file and the process table (sysinfo), and
  the system calls that perform the planned adjustments.
- `tests/` — tests of the library.
