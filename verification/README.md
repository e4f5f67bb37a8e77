# netflash

A WAN-quality engine for a menu-bar indicator: probes the public internet with
tiny HTTP and DNS checks, decides whether the path is up, captive, flapping or
dead, and paints a status color with conservative recovery.

- `src/` is the verified library (Verus): samples and the sample ring, the
  dead-man and captive rules, flap edges, window statistics and reasons,
  recovery hysteresis, the probe scheduler and host round tracking, the engine
  core, HTTP answer classification, release checks, skins and color stops.
  Every public function carries a contract; `law_*` proof functions state the
  properties that span calls.
- `app/` is the tray program: network probes (reqwest, hickory), the
  floating-point score blend, easing and Oklab color mixing, tiny-skia skins,
  preferences (serde/toml), the update download, and the winit/tray-icon loop.
- `tests/` exercise the library on concrete inputs.
