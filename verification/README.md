# chip_oxide

A CHIP-8 interpreter whose core is verified with Verus.

- `src/` is the verified library:
  - `instruction`: decoding opcodes into instructions and their assembly text;
  - `machine`: the machine state, the execution rule of every instruction under the
    quirk settings, the fetch/decode/execute cycle and whole frames;
  - `screen`: XOR sprite drawing with clipping;
  - `keyboard`: the hexadecimal keypad and its host-key layout;
  - `cli`: the interpreter settings and quirk flags;
  - `chip8`: the first-generation core with its register, memory and screen dumps;
  - `program_registry`: the program database and lookups by ROM hash;
  - `hex`: decimal and hexadecimal rendering, and texts joined from parts;
  - `laws`: properties that span instructions (XOR drawing is undone by redrawing,
    call/return, save/load, read after write, carry, font glyphs).
- `tests/` runs the library on concrete programs.
- `app/` is the program: command line (clap), window (eframe/egui), buzzer (rodio)
  and the embedded JSON database (rust-embed, serde).
