# brotli_cli

The brotli command-line tool, with its logic in a Verus-verified library.

- `src/` — the library, verified with Verus:
  - `rebox`, `heap_alloc`: owned fixed-length buffers and the allocator that
    fills them with clones of a value (they implement `alloc_no_stdlib`'s
    allocator traits, so `brotli_decompressor` allocates through them);
  - `io_retry`: the rule of the stream wrappers (an interrupted call is made
    again; anything else is handed on);
  - `numbers`, `chars`: decimal parsing as `str::parse` does it, and the
    trimming, prefix and comma-splitting that the argument grammar uses;
  - `args`: the command-line grammar, one argument at a time
    (`apply_argument`) or a whole list (`parse_arguments`);
  - `plan`: which streams a run reads and writes, and how often;
  - `text`: the lines the tool prints (`writeln0`, `writeln_time`, the
    meta-block log header) and decimal rendering;
  - `compress`: the set-up of a compression run;
  - `decompress`: decompression of a whole stream through
    `brotli_decompressor`.
- `app/` — the program: argument and file handling, the stream wrappers and
  the streaming decompressor, and the calls into the brotli encoder.
- `tests/` — tests of the library on concrete values.

## Limits of `app/`

- The encoder is the `brotli` library, which this tool belongs to and which
  is not a dependency here; `app/streams.rs` calls it all the same, so `app/`
  does not type-check without that crate.
- The printer of the meta-block log (`-i`) and of the dictionary
  (`--dump-dictionary`) belong to a module of the tool that is not part of
  this source: `-i` writes only the log's header line, and
  `--dump-dictionary` reports that the dump is not available.
- Decompression reads the whole input before it decodes, since the library
  decodes a stream held in memory: output appears only after the input
  ends, and a read error comes before any output.
