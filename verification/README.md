# file_explorer

The logic of a media file explorer that describes images with a local
vision model, as a library verified with Verus, and a small command-line
front end around it.

- `src/` is the verified library. Every function states its behaviour in
  `requires`/`ensures` over spec functions and views, and Verus proves it.
  The few calls into other crates (`serde_json`, `blake3`, `base64`,
  `humansize`) and into `std` string routines sit behind small functions
  marked `#[verifier::external_body]`, each with a doc comment that says
  what its contract assumes.
  - `text`, `order`, `keyed`: strings as character sequences, their order,
    and a small map keyed by path.
  - `metadata`, `engine`, `document`, `search`, `media`, `rows`: the indexed
    records, the in-memory index, the semantic document of a record, the
    ranking of search hits, thumbnails and hashes, and the cached rows.
  - `scan`, `records`, `navigation`, `layout`, `preview`, `display`,
    `thumbs`, `counters`: what the result views do with scan reports,
    filters, sorting, grouping, folder history, column layout and the texts
    they show.
  - `config`, `json`, `loader`, `chat`, `generation`, `vision`,
    `generated`: the captioning model's configuration (settled from the
    bytes of its JSON files), the requests sent to it, its token loop, and
    the reading of its answers.
- `tests/` runs the library on concrete values.
- `app/` is the executable: file system access, reading the settled JSON
  into the configuration types, CSV output, and the floating-point
  computations the library does not hold.
