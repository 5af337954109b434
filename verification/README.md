# mtp-mount

Mounts MTP devices (Android phones, cameras, players) as local filesystems.

The library in `src/` holds what a mount decides, each function with a contract that Verus proves:

- `inode`: inode numbers, names and the tree, across listings and reconnects.
- `sparse_cache`: which bytes of an object have arrived, and the whole-object download that fills
  one in order.
- `buffer`: write buffers in memory.
- `fs`: what each filesystem call answers, what it asks of the device, how it rides out stale
  handles and lost sessions, and what has been spooled for files that are open for writing.
- `fill`: the whole-object downloads in flight.
- `reconnect`, `shutdown`, `device`, `hints`: waiting for a device, giving it up, and saying why.
- `daemon`: where each device is mounted, and when mounts come and go.
- `size`, `spool`, `text`, `listing`, `help`: what people type and read.

Device sessions, the FUSE loop, files, signals and USB hotplug are in `app/`, which carries out what
the library decides. What is written and what is read back go to unlinked files in the spool
directory, so memory stays flat however large a file is.
