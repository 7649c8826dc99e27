# homeward

Aggregates shelter and lost-pet listings from many incompatible sources into one
canonical record.

The library under `src/` is written in Verus: what it decides is stated in
contracts and proved. The program under `app/` sends the requests, reads files
and the store, and prints; it hands the library plain values and does what the
library answers.

| Module | Role |
| --- | --- |
| `schema`, `time`, `ids` | The canonical record and the instants and identifiers in it. |
| `connectors`, `poll` | Socrata, ArcGIS, OpenDataSoft, RescueGroups and Pet FBI: normalizers, queries and polls, page by page. |
| `http` | Retries, spacing between requests, and robots.txt. |
| `catalog`, `registry` | Which sources there are. |
| `probe`, `discover`, `search` | Is a dataset usable, and which datasets might be. |
| `entry_text` | What the text of a catalog entry says, and that a probe's entry says what was found. |
| `coverage`, `geo_coverage` | What the sources cover, and what they do not. |
| `geocode` | A coarse location from the text of where an animal was found. |
| `embed` | Requests to the photo-embedding sidecar. |
| `cli` | What an invocation of the program asks for. |
| `text`, `decimal`, `table`, `rank` | Texts, decimal numbers, tables and rankings. |
| `json`, `web`, `span`, `outcome` | Models of documents, URLs, spans of time and results. |

Functions that call another crate are marked `external_body` or
`assume_specification`; the comment above each says what is taken on trust.
Everything else is verified.

```sh
homeward connectors list
homeward connectors poll austin --since 2026-06-01T00:00:00Z --limit 20
homeward connectors coverage --store homeward.db --geo
homeward probe data.austintexas.gov fdzn-9yqv
homeward probe --family opendatasoft https://data.example.org animal-shelter-intakes
homeward discover --families socrata --limit 20
```
