# webcrawler

A library for running a crawler based on the trait `Spider`.

- `src/` is verified with Verus. It holds what a crawl decides and remembers: the record of
  every URL (`state`, `processing_state`), the JSON state file (`json`, `record`,
  `state_file`), the counts (`statistics`), how a scraping or a processing is taken down
  (`crawler`), the control loop that queues new URLs and ends the crawl (`listener`), and what
  holds of a crawl as a whole (`laws`), of one run after another (`runs`), and of
  which URLs a run visits (`visits`).
- `app/` is ordinary Rust around it: the trait `Spider`, the tasks and queues, the files and
  the log.
- `tests/` runs the library.
