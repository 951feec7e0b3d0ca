# gamepad_applet

A COSMIC panel applet that lists Bluetooth game controllers known to BlueZ,
shows their battery charge, and lets the user disconnect, rename, remove or
re-pair them.

- `src/` is the verified library (Verus): the applet's state machine
  (`handlers::update`), the re-pairing and discovery procedures
  (`reconnect`, `discovery`), the reading of BlueZ's object tree (`bluez`),
  the power-supply rules (`battery`), the popup's rows (`view`), the error
  wording (`report`), small address-keyed maps (`keyed`) and the string
  operations they use (`text`).
- `app/` is the program around it: D-Bus calls through `zbus`, file reads,
  timers and the COSMIC widgets. It performs the actions the library asks
  for and hands the answers back.
- `tests/` exercise the library on concrete values.
