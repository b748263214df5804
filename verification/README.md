# wt_extract

A verified library for taking MongoDB namespaces out of a WiredTiger data
directory, and the command-line program around it.

The library (`src/`) holds what the program reads and decides:

- `catalog`: the `_mdb_catalog` table, whose values are BSON documents.
  `get_tablenames` gives the tables of a namespace (its collection, then its
  indexes), and `plan_metadata_fix` the catalog record that the destination
  needs.
- `listing`: `list_tables`, the listing of the catalog at a verbosity, with
  the lines printed before any stop.
- `document`: the boundary to the `bson` crate, which decodes the documents.
- `command`: the namespace list of `-n` and the choice of command.
- `copy`: the URI and key kind of a copied table, and the size records to copy.
- `status`: WiredTiger return codes.
- `text`: character-level string helpers.

The program (`app/`) talks to WiredTiger through the C bridge
`wt_rust_wrap`, reads options with
`getopts` and prints in colour with `ansi_term`.
