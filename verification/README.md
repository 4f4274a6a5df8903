# podcast_downloader

A podcast subscription manager and downloader for offline listening: search the Apple
Podcasts directory, subscribe to RSS/Atom feeds, download new episodes as MP3 files
(converting with FFmpeg when needed) and keep only the newest episodes of each feed.

The library in `src/` holds the decisions of the program, each with a contract proved by
Verus; `app/` runs them against the database, the network, the file system and the
terminal.

## Layout

| Module | What it decides |
|---|---|
| `text` | whitespace, trimming, prefixes, decimal and hex text, text order |
| `model` | errors, configuration, records, episode statuses, summaries, progress events |
| `metadata` | titles, file name components, episode keys, dates, media extensions |
| `feeds` | parsing feeds into episodes, media links, newest-first order |
| `feed_input` | which feed bytes the feed parser can be handed safely |
| `decoder` | MP3 detection, encoder status and conversion outcomes |
| `downloads` | download plans, flat file names, unique names, temporary files |
| `sync` | first and later checks of a feed, counting results, full checks |
| `feed_check` | the steps of checking one feed, from fetching it to reporting its counts |
| `batch` | manual downloads of chosen episodes |
| `batch_run` | the steps of a manual download, from the ids asked for to the final counts |
| `retention` | which downloads a feed keeps and what removing the rest reports |
| `library` | subscribing, previews, deleting downloads inside the download directory |
| `paths` | joining, resolving and comparing `/`-separated paths (Unix rules) |
| `config_file` | the settings file and the runtime configuration it gives |
| `discovery` | directory search queries and results |
| `keyed`, `ordering` | a small text-keyed map; stable sorting |
| `progress`, `screen`, `console` | the terminal monitor, key handling and screen state |
| `desktop` | the desktop task lock and the list of downloaded episodes |

`tests/` exercises the library on concrete values.
