# zeros_tooling

The decisions of the zerOS build tooling, verified with Verus.

`src/` is the library:

- `bitfield`, `layout`: bit fields packed into bytes (accessors, layout of a
  declaration, attribute handling and size checks);
- `runnable`, `random`: the parameters of runnable items, their commands,
  temporary names and generated identifiers;
- `static_assert`: the arguments, message and item names of static
  assertions;
- `cases`, `exprs`: case styles of names and the value-level counterparts of
  the expression macros;
- `buildrs`: the kernel build script's values, paths and compiler commands;
- `target_spec`: generating Rust target specifications;
- `options`, `configure`, `tasks`, `zeros_build`, `qemu`: the build driver's
  options, configuration, task commands, kernel build plan and emulator
  command line;
- `limine`, `term`, `troll`: bootloader release handling, the terminal
  preference walk, and unwinding-table records and reports;
- `text`, `pattern`, `arch`: shared text helpers, regular expressions and
  architectures.

`app/` holds the programs around it: command-line parsing, files,
environment and processes.
