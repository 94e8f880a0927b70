# fischys-fancontrol

Fan control for Linux: reads temperature and fan sensors (lm-sensors, NVIDIA NVML), drives
the PWM outputs under `/sys/class/hwmon` and the fans of NVIDIA GPUs along configurable fan
curves, and measures which fans each controller drives.

## Layout

- `src/` is the library, written in Verus. Every function in it carries a contract that
  Verus proves. It holds the sensor storage and its registry, the PWM scan, the parsing of
  `sensors -j` readings and of console commands, chip and bus naming, the selection and
  ordering of controllers and sensors, the service's decisions (error kinds, restarts, poll
  rate), the walk over NVIDIA GPUs and the sensors and fan controllers found on them, and
  the text of messages and errors.
- `app/` is the program around it: command-line handling, files under `/sys`, the `sensors`
  command, NVML readings, signals and logging, and everything that computes with
  floating-point numbers (fan curves, readings, measurements).
- `tests/` exercises the library on concrete values.

Calls into outside crates (`regex`, `hashbrown`, `nvml-wrapper`) and into `std` functions
that Verus has no specification for go through small trusted wrappers, each documented
with what its contract claims.

The libsensors plugin is not part of this crate: it needs the C library `libsensors` through a
binding crate that this crate does not use. Its naming rules (chip names, bus names, feature
and subfeature kinds) are in `src/libsensors` and `src/groupie/libsensors.rs`, and sensors
are read through the `sensors` command instead.
