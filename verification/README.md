# rusty_twinkle_tray

The logic of a small Windows tool that adjusts the brightness of monitors
(external ones over DDC/CI, the laptop panel through the internal display
brightness interface), written in Verus and verified.

- `src/localization.rs`: the UI language (config value, system language,
  set once) and the English and Chinese strings.
- `src/monitors.rs`: which display targets are monitors, which one is the
  internal panel and how it is named, the brightness arithmetic of the
  internal panel, and how a connection is reached.
- `src/edid.rs`: the model of a display from its EDID block, and the
  registry key that holds that block.
- `src/utils/`: text helpers (white space, trimming, ASCII case), the error
  type, and the single instance lock as a step function.
- `app/`: the Windows calls (display configuration, DDC/CI, device I/O
  controls, registry, named mutex) and the process wide state, around the
  library. The `windows` crate only has content when built for Windows.
