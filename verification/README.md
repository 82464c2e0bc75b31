# onetcli

The logic of a database and terminal client, written in Verus: the functions of
`src/` have contracts that Verus proves. Those of the calls into other crates it
takes for granted; they are named at the end.

- Database tree: `db_node`, `node_store`, `str_map`, `tree_types`, `tree_model`
  (what each operation means), `tree`, `tree_menu`, `tree_laws`, `tree_events`.
- SQL dumps: `dump_target`, `sql_dump`.
- Document databases: `bson_ext` (BSON and JSON values), `mongo_types`,
  `mongo_connection`, `document_table`, `document_laws`, `query_input`, `schema`,
  and the view of a collection in `collection_types`, `collection_model`,
  `collection`, `collection_panels`, `collection_laws`.
- SSH: `ssh_auth`, `ssh_connect`, `base64`.
- Terminals: `places`, `shell`, `mfa`, `terminal_types`, `terminal`.
- `text` holds the string operations that all of this is built on.

State machines take an event and give back what is to be done outside. `app/`
does it: it talks to servers, reads and writes files, and keeps the screen. What
is relied on about other crates stands in `bson_ext`, `text`, `mongo_types`,
`ssh_auth`, `ssh_connect`, `places` and `terminal`, each item with what it claims.
