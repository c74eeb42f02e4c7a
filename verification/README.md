# raiden

raiden provisions and maintains full-disk-encrypted RAID systems on Debian
GNU/Linux: it plans an install, and then the status, scrub, mount, removal and
replacement of disks, the sync of the boot mirrors, and the checks and repairs of
a running system.

Every operation is a plan, a list of phases of steps that is built before
anything is touched. A dry run prints the plan; execution runs it in order and
records a checkpoint behind each step, so that it can be resumed.

## Layout

- `src/` is the library, written in Verus. It builds the plans and takes the
  decisions; what commands print and what files hold comes in as plain values.
  - `text`, `sorted`: texts, numbers and sorted lists.
  - `config`, `layout`, `manifest`, `state`, `checkpoint`: what is configured,
    derived from it, and kept.
  - `step`: steps, phases and how a plan is run.
  - `efi`, `stack`, `pipeline`, `ops`: the plans of the storage stacks, of install
    and of the later operations.
  - `cli`, `command`, `prompt`, `recover`: flags, questions and the rules of the
    commands.
  - `sync`, `badblocks`, `benchmark`, `doctor`: the mirrors, read errors,
    benchmarks and health checks.
  - `laws`: what holds of all plans together, such as which disks an operation
    may erase and which need the password.
- `app/` is the program around it: arguments, files, commands and the terminal.
- `tests/` runs the library on concrete values.
