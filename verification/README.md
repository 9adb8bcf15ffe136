# cca_vmm

The logic of a monitor for guests in Arm CCA realms, verified with Verus: what a
GICv3 does, how a plane is entered and left, how interrupts reach it, how test
microkernels are found, loaded and run, and which programs set up the emulated
environment that all of this runs in.

- `src/gic`: the interrupt controller, its registers and its laws.
- `src/rsi.rs`, `src/cca`: the page that the realm monitor shares with a plane,
  and the virtual processor that runs in it.
- `src/tmk`: test microkernels, as guests and as what the monitor loads.
- `src/flow`: the plans that install, update and run the environment. A plan is
  data: it says what to do, and whether a path has to be there or missing.
- `app`: ordinary Rust that carries out what the library decides, with CPU
  instructions, the kernel driver, files and programs.

Public proof functions without a `lemma_` prefix state what holds of several
operations together.
