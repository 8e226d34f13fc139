# peerchat

A small UDP peer network: a main server registers the peers that connect to
it and tells every peer about the others; clients connect to the main server
and send text messages to peers by id.

- `src/` is the verified library (Verus): the command vocabulary, user
  records, user tables, the decisions of the main server's receive handler and
  of a client, and the text formats the programs read (console lines, port
  lines, timeout reports, decimal numbers).
- `app/` holds the programs: sockets, the console, the JSON and bincode
  encodings of commands, and a STUN query.
- `tests/` runs the library on concrete values.
