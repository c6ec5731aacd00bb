# cosmic-applet-proxmoxbar

A COSMIC panel applet that watches a Proxmox cluster. The library under
`src/` is written in Verus and verified; `app/` holds the desktop shell
around it (configuration file, HTTP requests, timers and widgets).

- `text`: string helpers (decimal rendering, lexicographic order, slash trimming).
- `sort`: a verified stable sort, with a proof that the stable sort is unique.
- `resources`: what `/cluster/status` and `/cluster/resources` report, and the per-node, per-guest and per-storage summaries.
- `snapshot`: `build_snapshot`, which adds the listings up into a `ClusterSnapshot`, and the panel label.
- `popup`: the popup's content, line by line.
- `config`: configuration defaults, poll period, request URLs and token header, config file location.
- `applet`: the applet as a state machine (`ProxmoxApplet::update`), with its laws.
