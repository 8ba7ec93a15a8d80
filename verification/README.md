# self_esp

Verified core of the self-esp toolkit: host tools (`cli`, `hermes`) that flash
an ESP32 board, upload bytecode to it and hand it Wi-Fi credentials, and the
board's firmware that reads those credentials and takes uploads.

- `src/` — the library, proved with Verus:
  - `text` — Unicode whitespace, `trim`, decimal formatting and parsing, joining;
  - `path` — the file name of a path;
  - `cli` — commands and their arguments, serial-port selection, the board
    report, the upload address and the watch rule;
  - `hermes` — its commands, the credential message (with the law that the
    firmware reads it back) and the serial monitor's rule;
  - `firmware` — the credential line parser and configuration loop rule, the
    stored credentials, the upload body limit and the HTML pages.
- `app/` — the programs around it: command line, serial ports, flashing,
  HTTP, file watching, and (for the ESP-IDF target) the firmware's server.
- `tests/` — tests of the library on concrete values.
