# async_virtio_driver

A driver for virtio block devices, written and verified in Verus.

`src/` is the library. It makes the driver's decisions, and reads and writes the
rings and descriptors that are shared with the device, cell by cell:

- `cell` - the shared cells, over the `volatile` crate: those that only the driver
  writes and those that the device writes
- `descriptor`, `queue` - the virtual queue: offering chains of buffers to the
  device and taking them back
- `model` - the queue's state as mathematics, and what each operation makes of it
- `laws` - what holds of a queue whatever is done with it
- `layout`, `setup` - the memory of a queue, and the steps that bring a queue up
- `request`, `block`, `feature`, `init` - block requests, the block device, its
  features, and the steps that bring it up
- `block_laws` - what holds of block requests

What the device says is never assumed to make sense: an operation that reads the
used ring says in its result when the device named something that is no chain of
the queue.

`app/` is what touches the machine: registers, addresses, locks, futures. It does
what the library's steps ask for and hands back what came of it: it notifies the
device, acknowledges interrupts, and reads the status of a request. The kernel
provides the registers (`VirtIOHeader`) and the memory (`Dma`).
