# urwtest-rs

A read/write test for mounted volumes. It fills the free space of a USB stick or
SSD with data that a seed determines, reads the data back at once, after a delay
or on the next run, and so finds out whether the device has its claimed capacity
and keeps what is written to it.

The decisions, formats and checks are a library that Verus verifies; the program
around it performs what the library decides.

## Layout

- `src/pattern.rs`: the test data, produced from a seed block by block.
- `src/engine/`: writing one file (`writing`), the files of a pass (`pass`),
  verifying (`verifying`), what a test begins with (`preparation`), a test of
  several passes (`session`), and what the files tell of a test whose state is
  lost (`recovery`). Writing, verifying, passes and tests are state machines: each
  names the next action, takes note of how the action ended, and says what the
  user is told.
- `src/manifest.rs`: names of test files, and the persisted state of a test.
- `src/volume/`: which mounted volumes can be tested, on Linux and on Windows.
- `src/interactive.rs`, `src/cli.rs`, `src/report.rs`, `src/console.rs`: the
  dialogue, the command line, and what is shown.
- `src/text.rs`, `src/ordering.rs`: text and sorting.
- `app/`: arguments, files, devices, the terminal, JSON and measured times.
- `tests/`: the library on concrete values.

## What is proved

Whatever happens while a file is written, it holds the beginning of its seed's
data, and a file passes verification exactly if it holds that data. A deferred
verification goes through the same files as an immediate one and reports the
same. A file's name gives its pass, number and seed back, so that a lost state is
recovered from the files. A test never counts a pass that was not verified, fails
exactly on bad data or missing capacity, and removes only test files. A new test
discards nothing that it finds without being told to.

## What is trusted

The ChaCha generator of `rand_chacha` (that its stream is a function of the seed,
and that filling a buffer takes the next bytes of the stream), and of the
standard library `String::push`, `String::from_utf8_lossy` and
`String::from_utf16_lossy`.
