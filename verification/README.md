# takumi_cli

A command line tool that renders HTML (or a JSON node file) to an image with
the `takumi` renderer. The crate is split in two:

- `src/` is a Verus-verified library holding the tool's decisions:
  - `html`: HTML (parsed by `tl`) to node tree, with `style` attributes turned
    into generated classes `_s0`, `_s1`, ... and their CSS rules;
  - `images`: the image sources of a tree, how each is fetched, and a resolver
    that hands out the fetches in document order and decodes what they bring;
  - `fonts` and `google_fonts`: font URLs in a Google Fonts stylesheet, cache
    file names, registering fonts, and the download-and-cache procedure as a
    state machine;
  - `cli`: choice of input and output format, and reading JSON node files;
  - `text`, `path`, `node`: string operations, path operations and the node tree.
- `app/main.rs` parses arguments, does the file and network I/O, and calls the
  renderer, driving the library's state machines.
