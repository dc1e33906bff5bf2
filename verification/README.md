# cildec

A decoder for CLI metadata and CIL method bodies, written and proved in Verus.

The library reads a managed PE image, or a bare metadata blob, and exposes its
tables, heaps, signatures, method bodies and exception-handling tables as typed,
bounds-checked values. It decodes CIL bodies into a typed instruction stream with
exact byte offsets and sizes, absolute branch targets and folded prefixes.

Every decoder is a function of its input bytes. Its contract equates what it
returns, each error with its kind, offset and context included, with a
mathematical description of the format, for every input: there is no input on
which a decoder panics or reads out of bounds.

## Layout

| Module | Holds |
| --- | --- |
| `reader`, `compressed`, `text` | the byte cursor, compressed integers, text |
| `error` | failures, tolerated deviations, strict and permissive parsing |
| `token` | table ids, tokens, typed row ids, heap indices |
| `heaps` | `#Strings`, `#Blob`, `#GUID` and `#US` |
| `tables` | the table stream, coded indices, typed rows, row lookups |
| `metadata` | the metadata root and its streams |
| `pe` | the PE image, its sections and its CLI header |
| `il` | opcodes and the instruction stream, raw and with prefixes folded |
| `body` | method bodies and exception handlers |
| `signature` | signature blobs and their grammar |
| `display` | names of types, methods and signatures |

Each data type has a ghost model. A parse is described on the model, and the
public proof functions, whose names begin with `lemma_`, state what holds of the
descriptions as a whole: that an encoding reads back, that instructions tile
their code, that a strict parse gives what a permissive one does.

`app/` is ordinary Rust around the library: file access, `Display`, `Error` and
`Iterator`, floating-point operands, `serde` copies, a dump of an image, and the
bodies of the fuzz targets.
