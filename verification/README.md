# testframework

Fuzz testing for a RISC-V implementation of NaCl on the SiFive HiFive1
rev B. For each function under test the framework draws random inputs,
computes the expected output with a reference implementation, writes a C
benchmark harness (`benchmark.c`) that runs the same inputs on the board,
builds and uploads it, reads the board's answer from the serial device and
checks it. A second tool turns the raw output into a CSV file with one row
per measured run.

The library under `src/` is verified with Verus:

- `limbs`, `field`, `curve25519`: TweetNaCl arithmetic modulo 2^255 - 19
  and the X25519 ladder, proved equal to RFC 7748; crypto_box on top of
  microsalt's secretbox.
- `primitives`: the calls into outside crates (rand, microsalt,
  sodiumoxide, hex, num-bigint, byteorder, std's UTF-8 decoding), each with
  the contract it is trusted to meet.
- `format`, `utils`, `text`, `numparse`, `scan`: rendering bytes and
  numbers, trimming and matching text, and the patterns the readers look
  for, each as a function on characters.
- `benchmark`: the harness texts.
- `generators`, `poly1305`, `functions_and_testcases`, `traits`: the test
  cases of the current campaign and their generators.
- `reader`: reading a test result line by line, with the laws that what the
  harness prints (result bytes and cycle counters) is read back.
- `make`, `run`: checking build output, and the decisions of a test run.
- `karatsuba`, `mulmod`, `onetime_authloop`, `scalarmult`, `securemul`,
  `testcase_generators`: the earlier single-purpose benchmarks and readers.
- `parsing`: the CSV tool's line grammar and rows.

`app/` holds the program around it: command line, files, processes, the
serial device, logging and the progress bar. `app parse <file>` runs the
CSV tool.
