# infinite_db_step

Imports ISO 10303-21 (STEP) B-rep models into InfiniteDB as spatial records,
boundary-function records and topology hyperedges.

Layout:

- `src/` — the library, verified with Verus:
  - `text` — character-level text operations (trim, find, lines, decimal numbers);
  - `parser` — reading the DATA section into raw entities, splitting arguments,
    strings and `#id` references;
  - `resolver` — following references from vertices, edges, curves, surfaces,
    faces, shells and solids to the entities they name;
  - `encoder` — laying out record addresses and numbering the topology hyperedges;
  - `spaces` — space identifiers, dimensions and coordinate quantization;
  - `kinds`, `emitter`, `store`, `cli` — type names, the summary tally, the
    decisions taken while writing to the database, and the command line.
- `app/` — the program around it: real-valued geometry and signed distance
  functions, JSON payloads, file I/O, logging and the InfiniteDB calls.
- `tests/` — tests of the library.
