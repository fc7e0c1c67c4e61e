# notionless

The verified core of a service that syncs the pages of a Notion database, as Markdown
documents, into Paperless-ngx. The library decides everything; a thin program around it
does the HTTP requests.

- `src/text.rs`, `src/number.rs`: character-level text operations (trimming, searching)
  and decimal formatting and parsing of integers, each with its specification.
- `src/collection.rs`: `IdMap`, a text-keyed map that can be walked in insertion order.
- `src/helpers.rs`: timestamps (via chrono), content hashes (SHA-256 via sha2, in hex),
  and the per-page sync decision.
- `src/notion.rs`, `src/notion/model.rs`: the Notion database listing and the Markdown
  export of a page's blocks.
- `src/paperless.rs`, `src/paperless/model.rs`: base URLs and pagination links, the
  custom fields that link a document to a Notion page, upload tasks and duplicate
  rejections, and the laws that tie upload, adoption and read-back together.
- `src/sync.rs`: one cycle's comparison and plan, and the laws of change detection.
- `app/`: the daemon (`main`), the HTTP requests, and the wire formats with serde.
