# ghostex_desktop

The decision logic of the Ghostex desktop host, written in Verus and proved against its
contracts: which chat a view attaches to and when a chat is shut, how chunked transfers are
reassembled, how dismissal markers fold into revision ranges, how the sidebar list decides what
to draw and when, how remote machine clients are reconciled with the connected machines, how
Docs annotation feedback picks its target and its delivery, and the storage catalog's bounds.

Layout:

- `src/` — the verified library. Each module states its model with spec functions and proves
  every public function against it; laws that span several calls stand as public proof
  functions beside the functions they speak of. Calls into `serde_json` and `uuid`, and the few
  std calls vstd gives no contract, sit behind small trusted wrappers whose doc comments say what
  is claimed of them.
- `tests/` — ordinary Rust tests that run the library on concrete values.
- `app/` — the host around the library: the SQLite record store, the clock, paths, and the
  conversion between `serde_json` values and the library's own `Json`.
