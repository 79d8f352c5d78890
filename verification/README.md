# rblk

Building blocks of a block driver stack, verified with Verus: a memory backed,
optionally zoned, null block device; the queue pairs and page lists of an NVMe
driver; and the block layer, interrupt, timer, memory and synchronization
helpers that they share.

- `src/` is the library. Its functions are verified, but for the trusted items
  below.
  - `device`, `disk_storage`, `zoned`, `configfs`, `module`: the null block
    device, from its configuration to the completion of requests.
  - `nvme`: queues, physical region pages and requests.
  - `block`, `bio`: errors, bad blocks, commands, tag sets, disks, queues.
  - `xarray`, `mm`, `sync`, `types`, `once_lite`, `hrtimer`, `pci`, `macros`,
    `text`, `util`, `error`: what these need.
- `tests/` runs the library.
- `app/` is the host side: the configuration directory, module loading, fault
  control points, and errors of procedural macros as tokens.

The library performs no I/O. Where it needs its host, it takes a closure or the
host's answer as an argument, and its contracts hold for every answer.
Allocations are granted by a `Memory`, lists of pages by a `DmaPool`.

## Trusted items

Nine declarations are believed without proof:

- in `macros`, the types `syn::Error` and `proc_macro2::TokenStream`, as opaque
  types; the wrappers `append_messages` of `syn::Error::combine` and `render` of
  `syn::Error::to_compile_error`; and the names `messages`, `token_texts` and
  `message_group`, in which their contracts are stated;
- in `text`, the wrapper `is_utf8` of `core::str::from_utf8`;
- in `zoned`, the contract of `u32::ilog2`.
