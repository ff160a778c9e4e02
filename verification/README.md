# rcore_n

The decision-making core of the rCore-N teaching kernel, written in Verus.
The functions in `src/` carry contracts that Verus proves, except the
small wrappers marked `#[verifier::external_body]` that call `smoltcp`,
`xmas_elf`, `bytemuck` and `bit_field`: their contracts are trusted, and
each one's doc comment says what it claims of the crate it calls.

- `src/` — the library: identifier allocation (`recycle`), memory layout of
  stacks and trap contexts (`layout`), the pipe ring buffer (`ring`), the
  ready queue (`scheduler`), thread and process bookkeeping (`process`,
  `pool`), descriptor, listening-port and connection tables (`fd`, `ports`,
  `sockets`), network replies and frame parsing through `smoltcp` (`net`),
  socket transfers (`transfer`), loadable modules read with `xmas_elf`
  (`elf`, `lkm`, `loader`), and the XXV Ethernet MAC driver (`xxv`, `grr`).
- `tests/` — tests of the library on concrete values.
- `app/` — a hosted driver: the waiting loops, devices, memory and context
  switches that the library leaves to its caller.
