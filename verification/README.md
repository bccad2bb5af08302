# openlogi_gestures

Gesture capture and binding resolution for HID++ mice, verified with Verus.

- `src/` is the library. It decides which buttons gesture on a device
  (`gesture_buttons`, `live_set`, `config`), which action each button and swipe
  runs (`binding`, `bindings`), how reports become captured inputs (`wire`,
  `swipe`, `capture`), and in which order controls are diverted and handed back
  (`divert`, `arming`). Time, transport and storage stay outside: functions take
  the time in milliseconds, and arming is a machine that names the next request
  and takes its reply. Properties that span functions stand as `law_*` proof
  functions beside the code they are about.
- `app/` is ordinary Rust around it: the HID++ channel, the capture session, and
  the stored form of the types.
- `tests/` runs the library on concrete values.

One call leaves the verified code: `wire::split_report` uses the `hidpp` crate to
take a report apart.
