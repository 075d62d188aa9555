# mtr

A traceroute and ping tool for the terminal, with a verified core.

`src/` is a library that Verus verifies. It never touches a socket, a thread, a
clock or a screen; it decides, and its caller acts.

| Module | What it holds |
| --- | --- |
| `packet` | echo requests with their checksum, and which probe a received packet answers |
| `prober`, `prober_laws` | the engine that probes with raw echo requests, as a state machine |
| `windows_prober` | the engine that probes through the system's echo service |
| `hop`, `hop_laws` | the statistics of one hop |
| `route`, `route_laws`, `application` | what is known of the route, and how events change it |
| `resolver` | the decisions of name resolution |
| `display`, `layout`, `clock` | what the screen shows, and where |
| `input` | what the keys mean, and when the screen is refreshed |
| `address`, `double`, `text` | addresses, floating-point bit patterns and decimal notation |

Functions named `law_` state properties of the library as a whole, such as that
every probe that went out gets exactly one result.

Floating-point values pass through the library as bit patterns. It orders them
itself, and takes the arithmetic on them as functions from its caller.

Two things are believed without proof: how `chrono` writes a date, and how
`ratatui` divides an area; see `clock` and `layout`.

`app/` is the program around the library: the command line, sockets, threads,
name lookups and drawing. `tests/` holds the tests.
