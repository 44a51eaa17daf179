# github-notifications

A local web app for managing GitHub notifications. It polls the GitHub
notifications API, caches everything locally in SQLite, and gives fast,
filterable, workspace-based views of open issues, pull requests and notification
threads.

The core is written in Verus. What the app decides is proved; what it sends,
stores and shows goes through plain values:

| Module | What it decides |
| --- | --- |
| `sync::notifications`, `sync::repos`, `sync::watches`, `sync::subscriptions`, `sync::subjects`, `sync::runs` | what to request from GitHub, what to store of the answers, and what follows a page |
| `sync::dismiss` | which threads of closed pull requests are dismissed |
| `sync::engine` | when a pass runs, its steps, and the status that others see |
| `github`, `http`, `json` | requests, retries, credentials, rate limits, links between pages |
| `auth` | where the bearer token comes from |
| `config` | workspaces, repo sets, and edits to them |
| `db` | the statements of the SQLite cache |
| `views`, `html`, `assets` | the HTML fragments and the static files |
| `api`, `server` | what the handlers answer, and where the server listens |
| `text`, `time` | text primitives and instants |

`app/` is the program around the core: it sends the requests, runs the
statements, serves the pages, and hands the results back.
