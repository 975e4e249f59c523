# hermit_kernel

Verified parts of a unikernel's device drivers and kernel services, written
in Verus.

- `src/` is the verified library: the console's output buffering, the
  entropy pool, command-line parsing, and pieces of the drivers' logic —
  the steps in which virtio network, socket, console, block and file
  system devices are brought up (status handshake, features read and
  written back, queues set up), stated over a model of the common
  configuration registers that an in-memory register set implements;
  capability selection; the split and packed virtqueue rings; virtio-net
  frame handling; the balloon's page bookkeeping; and block, NVMe, GEM,
  ixgbe and RTL8139 register values. Register and DMA access, interrupts
  and the drivers' global state stay outside; the library takes what the
  hardware reports as plain values and returns what to write.
- `tests/` runs the library on concrete values.
- `app/` holds the thin, unverified glue: error types with `thiserror`,
  the global state behind locks, and the serial port writer.
