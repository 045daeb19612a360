# artfetch

Browse open-access museum art from the terminal, with inline previews through the
Kitty graphics protocol, full-resolution downloads and Real-ESRGAN upscaling.

The decisions of the program are a library verified with Verus (`src/`); the
terminal, the network and the disk are handled by a thin program around it (`app/`).

## Layout

```
src/
  text.rs      character-sequence helpers with exact contracts (search, trim, case)
  catalog.rs   CatalogEntry, the museum and technique filters, catalog order
  museums.rs   museum API records -> catalog entries, paging and de-duplication,
               request URLs, Wikidata merging, Commons batches, the weekly cache
  gallery.rs   Piece, Gallery, file names, download routes, recorded results
  browse.rs    the filtered list and the key-driven session (browse/detail screens)
  layout.rs    header, ranges, widths and tags of the screens
  screen.rs    list rows, filter menu rows and detail lines, with their colours
  picture.rs   decoded image sizes, recorded downloads and upscales, previews,
               the PNG shown in the terminal
  kitty.rs     ANSI colours and the chunked Kitty graphics commands
  esrgan.rs    Real-ESRGAN install paths, command arguments and run reports
  gac.rs       Google Arts & Culture page metadata
app/
  main.rs      start-up: catalog, gallery, URLs given on the command line
  records.rs   JSON shapes of the APIs and of the saved files
  store.rs     configuration, caches and gallery state on disk
  fetch.rs     HTTP requests, downloads, installing and running Real-ESRGAN
  tui.rs       drawing, reading keys, running the session's commands
tests/         executable tests of the library
```

## Laws proved

- The browse list holds exactly the catalog works that pass the museum, technique
  and search filters, in catalog order (`browse::lemma_matching_exact`); the first
  list, and any list with an empty search, keeps every work the filters let through
  (`BrowseState::new`, `set_query`, `browse::lemma_matching_all`).
- No key moves the selection off its page or the page off the list, and opening a
  work then pressing Esc returns to the same page and selection
  (`browse::lemma_keys_stay_in_list`, `browse::lemma_detail_and_back`).
- The gallery never lists a URL twice (`gallery::lemma_get_or_insert_distinct`).
- A download never overwrites a file: the name chosen is the first the disk reports
  free (`gallery::free_download_path`).
- Catalog gathering never lists an artwork twice; AIC entries added carry pairwise
  different ids (`museums::lemma_aic_ids_distinct`,
  `museums::lemma_add_ids_distinct`, `museums::lemma_merge_keeps_works_distinct`).
- A material label is added to a work's medium at most once
  (`museums::lemma_medium_label_once`).
- The Kitty commands carry the whole base64 text, in order, in pieces of at most
  4096 characters (`kitty::lemma_pieces_cover`).
- An upscaled piece never needs upscaling again (`gallery::lemma_upscaled_is_done`).
