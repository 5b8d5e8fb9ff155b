# duinodcx

Controller logic for the Behringer Ultradrive Pro DCX2496 on an RS-232 bus,
with the web server around it.

The library (`src/`) holds everything that decides or computes, each part with
its contract and proofs:

- `protocol` — protocol constants and the request frames (search, ping, dump,
  transmit mode).
- `reader` — the frame splitter that cuts the byte stream from the bus into
  SysEx frames.
- `location` — where a parameter value lives in the two state dumps, how it is
  written there, and the tables that map (channel, parameter) to a location.
- `ultradrive` — the controller: frames received, the poll schedule (search,
  ping, resynchronisation), parameter changes sent, the state mirror.
- `connection` — when to open, retry (every timer tick, without limit) and
  close the serial port.
- `routes` — what each HTTP endpoint answers and which command it issues.
- `client` — the browser-side connection panel, with its port and baud-rate
  choice.
- `page` — the main page with the connection script injected.
- `text` — trimming, decimal parsing and printing from std, with their
  contracts.
- `laws` — properties that span several calls (frames are taken whole
  whatever came before, stale dumps are dropped after a change, a new port
  starts with a search, chunking does not matter, and more).

`app/` is the program: the axum server, the WebSocket bridge, the serial port,
the embedded UI files and the clock. It reads bytes and time, hands them to the library, and writes
the frames the library returns. Parameter-location tables are read from the
JSON file named by `DCX_LOCATIONS`.
