# cityjson_stac

STAC Items, Collections and Catalogs for CityJSON datasets, with the rules
that produce them verified by Verus.

- `src/` is the verified library: what is read of a CityJSON document
  (`reader::cityjson`), how readers are chosen and ZIP contents merged
  (`reader`), the STAC models and their builders (`stac`), the summaries a
  collection carries (`stac::summaries`, `stac::collection`), the columns of
  a GeoParquet file (`stac::geoparquet`), configuration merging (`config`),
  URL and path handling (`remote`, `path`, `cli`) and file selection
  (`traversal`). Every function has a contract over spec functions; the laws
  (round trips, precedence, order independence, bounds) are public proof
  functions.
- `tests/` runs the library on concrete values.
- `app/` is the `citystac` command line: argument parsing, file and network
  I/O, JSON and YAML (de)serialisation, floating-point bounding boxes and
  the Arrow/Parquet writer. It hands the library plain values and writes
  what the library returns.

The JSON documents' member tables (properties, summaries, assets) are lists
of name/value pairs with distinct names (`json`, `keyed`), and sets of names
are strictly sorted lists (`sorted`). Verus specifies `HashMap` and
`BTreeMap` well only for integer keys; with `String` keys even the length
after one insert is not provable, so the contracts are stated over these
lists, with map-insert semantics proved for them (`set_member`,
`set_entry`) and order independence proved for the sorted sets
(`lemma_sorted_set_unique`).
