# Polaris

A Windows client for the [EasyTier](https://github.com/EasyTier/EasyTier) mesh
VPN, with its logic written in Verus and proved against its contracts.

## Layout

| Path | What |
| --- | --- |
| `src/config.rs` | Profiles, settings and the store; conversion to and from EasyTier's `NetworkConfig`; imports, backups and profile ids |
| `src/engine.rs` | Per-network snapshots built from EasyTier's running info, the combined snapshot, peer sorting, event and byte formatting |
| `src/i18n.rs` | Locale catalogs flattened from JSON, language resolution and lookup with English fallback |
| `src/logging.rs` | The in-memory log ring, the `tracing` filter directive and log retention |
| `src/ui.rs` | What the pages decide: network cards, list filters, port-forward editing, export choices, small text helpers |
| `src/autostart.rs`, `src/elevate.rs` | Launch at sign-in and privilege state, cached; the command lines they pass |
| `src/dialog.rs`, `src/tray.rs` | UTF-16 buffers for Win32 and the tray tooltip |
| `src/text.rs`, `src/json.rs` | String building and trimming; JSON read with `serde_json` as a plain tree |
| `app/` | The Windows program around the library: startup, persistence, the EasyTier worker, logging, tray and system calls |
| `tests/` | Tests of the library |

The public proof functions (`lemma_*`) state the library's laws: ids handed out
in one pass are distinct, export followed by import keeps a profile's settings,
peer sorting orders and permutes, translation falls back to English, the log
ring keeps the newest lines, and the like.
