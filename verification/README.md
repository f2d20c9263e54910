# Groundhog

A MAVLink ground station. `src/` is its verified core, `app/` the window and the
transports around it.

The core is a state machine. `Application::maybe_update` takes over what happened
and returns what the surroundings are to do: send messages, run timers, open links,
pick files. Its contract says what becomes of the station and which actions are
returned, for every message. The panels in `panel` say what is shown.

| module | what it holds |
| --- | --- |
| `application`, `parameter_update` | the station and all that happens to it |
| `panel` | what the station shows, and what the user calls for in it |
| `vehicle`, `telemetry` | vehicles, and what their messages tell |
| `wire`, `dialect` | frames and payloads, their checksums, and the messages in them |
| `parameters`, `value`, `single` | parameters, their values, and packing those into singles |
| `parameter_file`, `file_text` | parameters in INI documents, and those as the text of files |
| `link`, `connection`, `udp` | links as typed in and built, frame numbers, datagrams as streams |
| `command` | what is sent, and the conversations that it takes |
| `flight_mode` | ArduPilot's flight modes by number |
| `ident`, `sorted`, `text` | ids and names, maps in order, text primitives |

The core does no floating point: singles and doubles are kept by their bit patterns,
lengths and angles in the integer units of the wire. Where a single has to become a
text or a text a single, the caller hands in the function that does it.

Public proof functions whose names start with `law_` state what holds across
operations: what is packed unpacks, what is typed in for a link and can be built is the
link of the next run, nothing is sent while no connection stands, a frame without a
message in it changes nothing. A file of parameters loads as it was saved, where a dot
separates the segments of names, the names fit the wire and are made of letters, digits,
underscores and dots, and the functions handed in for names and singles read back what
they wrote.

What is believed without proof stands beside the functions that use it: three
functions of the standard library in `text`, the INI documents in `parameter_file` and
their text in `file_text`, the readers of MAVLink payloads in `wire`, and what the MAVLink
dialect makes of a payload in `dialect`.
