# localdrop

Send a file to another device on the local network.

- `src/` is the verified library: the byte encoding of values (`comms`), the
  protocol's messages (`message`), the exchange between sender and receiver
  as two state machines (`exchange`), framing and chunked reception (`frame`),
  and the table of peers found on the network (`peer`).
- `app/` is the program around it: command-line arguments, TCP, mDNS
  discovery and announcement, prompts and progress bars, files.
- `tests/` exercises the library on concrete values.
