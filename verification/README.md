# mjventoy

An installer that prepares a disk for Ventoy: it clears the partition table,
writes an exFAT data partition and a 32 MiB FAT16 EFI partition aligned to
4 KiB, formats both and writes the boot images. It runs as a command line
tool (`install`, `list`) or as a terminal interface.

The library under `src/` is verified with Verus:

- `text` – decimal rendering, substring and prefix helpers, `str::trim` and
  `u64::from_str` as verified functions over characters.
- `executor` – the options, the disk layout (`calculate_offsets`), partition
  names, the sysfs size file and its parsing.
- `commands` – the external commands as program and arguments.
- `installer` – the installation plan and the state machine that walks it;
  laws: a run in which every step succeeds performs exactly the plan and
  succeeds, a dry run touches nothing, a failure ends the installation.
- `auth`, `discovery`, `theme` – root tools, the disks among `lsblk`'s
  devices, the colours.
- `tui` – the interface state, its key handling and the text it shows.

`app/` holds the program: the command line, the terminal, processes, files,
the clock, the user id and the JSON of `lsblk`. It performs the operations
that the library's installer hands out and reports how each went.
