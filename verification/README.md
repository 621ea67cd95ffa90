# fancurve

Controller for the two chassis fans of a MinisForum MS-01 running Linux: a
background service that reads temperatures from hwmon sysfs, drives the fans
through the nct67xx Super I/O chip, and serves a web UI with a fan-curve
editor.

## Layout

- `src/` — the verified library (Verus):
  - `binary64` — `f64` values held by their IEEE 754 bit patterns, with
    comparisons that follow `f64` exactly;
  - `config` — the configuration model, its defaults and its validation;
  - `control` — the per-fan decisions of the control loop (target source,
    mode switches, when to program the hardware curve or write a duty);
  - `hwmon` — sysfs paths, the meaning of sysfs file contents, the writes
    that control the fans, and the pieces of hardware discovery;
  - `text`, `sort` — trimming, parsing and printing decimal numbers, and
    sorting, each specified as the standard library behaves;
  - `web` — which asset answers a request.
- `app/` — the service around it: file and process I/O, the async control
  loop, the HTTP server, JSON, and the floating-point curve arithmetic
  (interpolation, resampling, percent to raw duty).
- `tests/` — tests of the library.
