# nostr-scrolls

Scrolls are WebAssembly programs that a Nostr client (the host) runs. This
crate is the SDK they are written against, split in two:

- `src/` is the verified library. It holds the decoding of the parameters the
  host lays out in memory, the model of an event the host delivers and its tag
  queries, subscription filters as the ordered list of calls that build the
  host request, the registry of handlers attached to subscriptions and the
  decisions taken when events and end-of-stored-events notices arrive, NIP-65
  relay lists, the arithmetic of the bump allocator, and the decisions of the
  `main` attribute.
- `app/` performs what the library decides: the host imports, the exported
  entry points, the global allocator, the global state, handler callbacks and
  the code generation of the `main` attribute.

`tests/` exercises the library on concrete values.
