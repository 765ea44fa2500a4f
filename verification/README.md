# huma

Status-bar awareness widgets for tmux (online, mode, battery, load, ssh,
crypto prices, now-playing), window-name icons, a sensible baseline, a
suspend toggle and config auto-reload.

- `src/` is the library, verified with Verus: the parsing of `/proc`, `/sys`,
  tmux and `playerctl` output, the rendering of every widget, the tmux
  commands each action issues, the crypto TTL cache, the autoreload change
  detection and the daemon's decisions. Each public function states its
  result exactly; the laws (suspend then resume restores the prefix, only
  options at their default are changed, a change is reported once, a fresh
  cache is used until its TTL, ...) are proof functions next to the code.
- `app/` is the `huma` program: argument parsing, running `tmux`, `curl` and
  `playerctl`, reading files, the TCP probe, the daemon loop, and the two
  floating-point steps (the load average and rounding prices/percentages).
- `tests/` exercise the library on concrete values.
