# jam_services

Verified logic of a few PolkaVM guest services.

- `src/image.rs`: a small image container (big-endian width and height,
  then RGB8 bytes), with encode/decode round-trip laws.
- `src/ascii.rs`: grayscale conversion, nearest-neighbour resampling and
  mapping of brightness onto an ASCII ramp; the frame renderer.
- `src/hex.rs`: lowercase hexadecimal formatting.
- `src/authorizer.rs`: the computations of the authorizer service (hash
  preimage, refine output, reading the output back in accumulate).
- `src/parent.rs`: the decisions of the parent service that pauses a child
  VM and resumes it in a fresh machine, as a state machine.
- `src/child.rs`: the step of the child VM that fills a Fibonacci table.
- `app/`: the PolkaVM entry points, which make the host calls and hand
  their results to the library.
