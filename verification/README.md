# hermit_llm

The logic of a unikernel that runs a language model from memory: the shell that talks to
the model and remembers what it was told, the database and the model cache on a SATA disk,
taking a model from a USB stick, and the drivers and network code around them.

`src/` is the library. All of it is verified with Verus. What has to wait for hardware is
written as a state machine: it says what it needs next (a register, a sector, a block in a
ring), is handed the answer, and says in the end what came of it. Contracts give each step
exactly; public proof functions named `law_..` state what holds over many steps.

- `shell`: commands, history, what is stored and replayed, log pages
- `storage`: AHCI ports, the memory database, the model cache, partitions
- `ingest`: FAT32, searching for a model, reading it block by block
- `usb`: host controller, devices, transfers, a USB network adapter
- `pci`, `console`, `keyboard`, `net`, `loader`, `processor`, `stdio`: the rest of the machine

`tests/` runs the library on concrete values. `app/` connects it to registers, memory and
devices.
