# waybar-wireguard (verified core)

The logic of a Waybar CFFI module that shows the state of a WireGuard
interface and toggles it on click, and of the helper binary that reports that
state as JSON, written in Verus and proved against its contracts.

- `src/text.rs`: decimal numbers, joining, white-space splitting.
- `src/format.rs`: filling the `{}` placeholder of the label format, with its laws.
- `src/config.rs`: settings, their defaults, overrides from the configuration,
  and the up/down command lines.
- `src/status.rs`: reading the helper's JSON report (through `serde_jsonc`),
  what the module shows after running the helper, CSS state classes, and what
  follows a toggle command.
- `src/handshake.rs`: time spans, the "latest handshake" label, and the
  helper's report.
- `app/`: the helper's `main` (netlink through `wireguard-uapi`, output through
  `serde`) and the GTK module (`waybar-cffi`, `async-process`) around the library.
