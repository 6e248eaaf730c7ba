# aprs

A reader for the pickled multiworld data of Archipelago, written in Verus.

The library (`src/`) reads Python pickles (protocols 0 to 5, the ops that
multiworld files use) into a value model of numbers of unbounded size, strings,
bools, `None`, tuples and shared mutable lists, dicts and sets that live in a
heap. Every op is proved to follow a model of the pickle machine
(`machine.rs`), and reading a whole pickle to give what that model gives.

- `bigint`, `integer`, `number`, `number_cache`: integers of any size and numbers.
- `value`, `heap`, `value_ops`, `equality`: values, the heap their containers live
  in, and the operations on them.
- `op`, `unframer`, `machine`, `classes`, `unpickler`: the pickle reader and its model.
- `laws`: what holds across operations (reading back what was written, what one op
  undoes of another, bytes after `STOP` are never read).
- `checksum`, `game`, `config`, `web`: game data checksums, item classifications,
  versions, server options, multiworld files (bare, or the `.archipelago` member of
  a zip archive) and the web host's identifiers.
- `multidata`: the typed multiworld data (slots, connect names, locations, data
  packages) and the lookups a server makes in it.

`app/` reads a multiworld file from disk, has the library take it apart, reads the typed
multiworld data out of the unpickled value with serde, and reports what it holds;
float arithmetic on values lives there too.
