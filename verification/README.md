# flicker

A bootable-USB writer for Linux, with its decision logic verified in Verus.

- `src/` is the verified library:
  - `text`: Unicode whitespace, trimming, words, lines, substring search,
    decimal numbers;
  - `units`: human-readable sizes ("14.92 GB"), in binary units with two
    decimals rounded up to the next hundredth;
  - `usb`: USB devices read from sysfs texts, mounted partitions from the
    mount table, and the device listing;
  - `checks`: privilege, image and device checks;
  - `session`: the confirmations, size checks and unmounting that come before
    a write, as a state machine that only starts a write once every device
    has passed;
  - `writer`: resume (skip chunks a device already holds) and verification
    (report the offset of the first differing byte);
  - `checksum`: SHA-256 and MD5 image checksums through `sha2`, `md-5` and
    `hex`;
  - `gui`: the device menu, the target selected from it, the log, and the
    privilege-elevation command;
  - `cli`: the commands.
- `app/` is the program: argument parsing with clap, file and device I/O,
  prompts, progress bars.
- `tests/` exercise the library.
