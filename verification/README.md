# teo_runtime

The schema runtime of the Teo framework: models with their fields, relations, properties and
indexes; the namespaces that hold models and handlers; and the bookkeeping of the objects
that a model's records are read into and saved from. The library's own functions are proved
against their contracts with Verus. What it takes on trust is its calls into outside crates:
the ordered maps of `indexmap` that hold a model's fields, relations, properties and indexes
(`new`, `insert`, `len`, `get`, `get_index`, in `src/model/maps.rs`), and the empty parser
shape of a model (`ModelResolved::new` of `teo-parser`, in `src/model/cache.rs`). Each of
these is a small wrapper whose contract says what the crate's documentation and source show
of the call.

Layout:

- `src/name_map.rs`: a map from names to values kept in name order, as the schema's ordered
  maps are.
- `src/utils.rs`: string comparison, paths and joins.
- `src/value.rs`: the values that data attached to the schema, and fields' defaults, hold.
- `src/model/`: fields, relations and properties with their builders; indexes; the model
  builder, which resolves the primary index and derives the model's key lists; the types of
  the builtin handlers; and `object/`, the state of an object and the rules it is saved by.
  The object's lifecycle itself (running pipelines, reading and writing the database) is not
  here: the library gives the step that decides each part of it (what to assign from an
  input, what to validate, what to put out, how related objects are queried, which changes
  of related objects to perform and in what order, how a database record is read into an
  object, the order of the steps of saving, what deleting a record does to related ones), and
  whoever runs the pipelines and the database acts on those steps.
- `src/namespace/`: the namespace tree, its lookups by path, the changes made at a path, and
  the laws that relate them.
- `app/`: conversions to and from the parser's types and the value type, and serializable
  copies of the library's types.
- `tests/`: scenarios for each part.
