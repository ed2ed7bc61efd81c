# xpr_app

The decision logic of a desktop router for Pokémon solo challenge runs,
written in Verus and proved against its contracts.

- `src/` is the verified library: option menus and event editors, the
  inline event creator and quick-add popover, the route list's rows and
  selection, the PP ledger walk, the landing and new-route pages, the event
  details panel, the saved-route index, and the world map's tools, chunk
  cache, sprite atlas packing, info cards, finder, trip path and export
  dialog.
- `tests/` runs the library on concrete values.
- `app/` is the command-line shell around it: it keeps the route index on
  disk up to date and lists the saved routes as the landing page does.
