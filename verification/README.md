# check-my-server

A lightweight Prometheus exporter for Linux server metrics, read directly
from `/proc`.

- `src/` is the verified library. `text` and `numbers` hold character-level
  text handling (lines, whitespace-separated words, trimming, searching) and
  number syntax, each specified over `Seq<char>` to match the standard
  library's string functions. `diagnostics` reads the kernel's files
  (`/proc/stat`, `/proc/meminfo`, `/proc/net/dev`, `/proc/diskstats`,
  `/proc/mounts`, `/proc/loadavg`, `/proc/pressure/*`, ...) into reports, and
  `metrics` renders a report in the Prometheus text exposition format.
  `layout` reads that text as lines: every metric's `# HELP` line, then its
  `# TYPE` line, then its samples.
- `app/` is the executable: it reads the files, calls `statvfs` and `uname`,
  computes percentages in floating point, runs the collectors on threads and
  serves `/metrics`, `/health`, `/version` and `/status` over HTTP.
- `tests/` exercises the library on concrete inputs.

If a collector fails, its metrics are omitted and a `# collector error:`
comment takes their place; the other collectors are unaffected.
