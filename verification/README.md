# ls2k1000la

Board-support logic for the Loongson 2K1000LA machine, written in Verus:
device-tree discovery, interrupt routing and ownership, the APBDMA planner
and executor, MMC host bring-up and diagnostics, clock, GPIO, pin-mux and
PCI decoding, the RTC time conversion, the board IRQ runtime and owner
plan, the deferred-read coordinator and the GMAC polling driver. Every
function in `src/` is verified by Verus except nine small trusted wrappers
around std (`Arc` cloning and pointer identity, an atomic release store, a
fence, number formatting, writing to a `fmt::Write` sink, UTF-8 decoding
and the `fmt::Error` type), whose contracts Verus takes as given. The MMC,
clock, APBDMA order and PCI register traits record every access with its
result, and the contracts of the functions that use them state the exact
access sequence. The GMAC device keeps a record of every hardware
operation it makes from the start of bring-up; its bring-up, send, receive
and link contracts state them. The free helpers `phy_id` and
`read_link_state` reach `GmacHardware` unrecorded. The LIOINTC bank
controllers behind the IRQ runtime record their calls, and the service
states which calls it makes on each.

Layout:

- `src/` — the verified library, one module per device or concern.
  `device_tree` holds a flattened device tree as plain values, and
  `topology::discover` turns it into the board description the other
  modules consume.
- `app/` — unverified glue: parsing a blob with the `fdt` crate into the
  plain model, volatile MMIO backends for the register traits, the
  process-wide gates, the diagnostic publication slot and the GMAC DMA
  memory. The read coordinator in `src/` takes its slot by `&mut`.
- `tests/` — executable tests of the library.

Hardware register behaviour is modelled by traits; the library proves what
it does with whatever a backend returns, never what the hardware returns.
