# analytics

Self-hosted website analytics for a single operator: an embeddable collector
script posts page views, clicks, scrolls, sessions and custom events, and a
dashboard aggregates them per tracked site ("property").

The decisions and data shaping of the server live in `src/`, a library whose
functions carry `requires`/`ensures` contracts proved with Verus:

| module | what it decides |
|---|---|
| `collector` | which collect requests are accepted, referrer normalization, GeoIP and user-agent enrichment, bot routing, the typed columns of an event |
| `event_data` | the free-form event data as a map with distinct keys |
| `ua` | bot detection, device classes, fields stored from `uaparser` families |
| `auth` | session cookie values and their validity, the post-login redirect, settings defaults |
| `dashboard` | who may see a dashboard, the period and its comparison period, export formats, chart summaries, top countries |
| `queries` | SQL fragments, grouped counts, the bucketed events chart |
| `cards` | the count cards and which custom events get a card |
| `properties` | the properties list: search, names, totals |
| `templates` | HTML escaping, route URLs, human-friendly times, asset paths, URL encoding |
| `geo` | when to refresh the GeoIP database and which monthly files to try |
| `paths` | whether a file lies within a root directory |
| `migrate` | the one-shot import from a Django analytics database |
| `seed` | weighted choices and the events of a made-up visit |
| `pdf`, `seo`, `dates`, `ids`, `models`, `text` | report diagnostics, the sitemap, dates, UUIDs, stored properties, text helpers |

`app/` is the axum server around the library: HTTP routes, SQLite access,
template rendering, downloads, and the `migrate` and `seed` subcommands.
`tests/` exercises the library on concrete values.
