# zotero-mcp

A [Model Context Protocol](https://modelcontextprotocol.io) server that exposes the
Zotero local connector API. Its logic is a library whose behaviour is stated in
contracts and proved with [Verus](https://github.com/verus-lang/verus).

## Layout

- `src/` is the verified library. It builds requests, reads responses and decides what
  happens next; it sends nothing itself.
  - `config`: the configuration, its defaults and its overrides
  - `client`: requests to the API and the reading of responses
  - `types`: items, compact records, collections, full texts
  - `children`: annotations, notes and attachments of an item
  - `fulltext`: the search for the full text of an item
  - `merge`: the data of a merged item and the preview of a merge
  - `merge_flow`: the course of a merge, from one answer of the API to the next request
  - `tools`, `resources`, `prompts`: what the server offers
  - `json`, `text`, `path`, `error`: values, texts, paths and errors
- `tests/` holds the tests of the library.
- `app/` is the server around the library: the protocol, the HTTP client, the files and
  the environment.

## Tools

| Tool                     | Description                                                       |
|--------------------------|-------------------------------------------------------------------|
| `search`                 | Keyword search; returns compact items                             |
| `get`                    | Metadata of an item by key (`compact: true` for the short form)   |
| `recent`                 | The N most recently added items                                   |
| `children`               | Notes, attachments and annotations of an item                     |
| `annotations`, `notes`   | The annotations or notes of an item as compact records            |
| `fulltext`               | Indexed full text of an item                                      |
| `export_citation`        | Citations in bibtex, biblatex, csljson or ris                     |
| `collections`            | All collections                                                   |
| `collection_items`       | Items inside a collection                                         |
| `tags`                   | Every tag in the library                                          |
| `attachment_path`        | The paths of an item's attachments below the storage directory    |
| `add_doi`, `add_url`     | Add an item by DOI or by web address                              |
| `merge_items`            | Merge two top-level items; supports `dry_run` and `keep`          |
| `add_to_collection`      | Put an item into a collection                                     |
| `remove_from_collection` | Take an item out of a collection                                  |

The resources are `zotero://recent`, `zotero://item/{key}` and
`zotero://item/{key}/fulltext`; the prompts are `summarize_paper` and
`write_paper_note`.

## Configuration

Optional file `zotero-mcp/config.toml` in the user's configuration directory:

```toml
api_base     = "http://localhost:23119/api"
api_key      = ""        # only needed for the cloud API
user_id      = 0         # 0 is the local user
library_type = "user"    # "user" or "group"
```

Environment: `ZOTERO_API_BASE` and `ZOTERO_API_KEY` override the file,
`ZOTERO_STORAGE` names the directory of the attachments, and
`ZOTERO_ABSTRACT_MAX_CHARS` caps the abstracts of compact records (500 by default, 0
leaves them out).
