# lib — verified core of a small hobby kernel

The data structures and hardware-facing decisions of a small x86 / ARM
kernel, written in Verus and proved against their contracts.

- `src/lists` — bounded FIFO queues (`RingBuffer`, `FixedQueue`), a
  fixed-capacity vector (`FixedList`), a doubly linked list over node
  handles (`LinkedList`) and a key-ordered list on top of it (`SortedList`).
- `src/drivers` — colours and their packed forms, the line-drawing
  algorithm, the `Display` trait, keyboard and mouse reports.
- `src/arch/x86` — page-directory and page-table encodings and the kernel
  page tables, multiboot information, the GDT and IDT, the 8259 controller,
  the PS/2 keyboard, mouse and mouse start-up, the text console, the
  VESA and Bochs frame buffers, and the register steps of loading a VGA
  mode.
- `src/arch/arm` — first- and second-level descriptors and the page
  tables, the boot tag list, GPIO, the UART and the BCM2835 and
  VersatilePB interrupt controllers and timers.
- `src/event.rs`, `src/kmain.rs` — the event queue and the decisions of
  the main loop.

Hardware registers and video memory are modelled as plain values
(`RegisterBlock`, `TextScreen`, port-write lists, `VgaOp` steps); `app/`
performs the actual port and memory accesses with the values the library
computes, and runs the main loop, polling the PS/2 controller in place of
its interrupts.
