# kbd_rgbd

The verified core of `kbd-rgbd`, a small daemon that animates a keyboard RGB
backlight through the Linux LED class device
(`/sys/class/leds/rgb:kbd_backlight/`).

- `src/` is the library, checked by Verus:
  - `types` — the profile model (`ColorProfile`, `ColorPoint`, `ProfileSelector`, `Frame`);
  - `animation` — frame generation (`build_frames`) with exact interpolation;
  - `command` — the command-file protocol (`stop`, `reload`, `profile <name>`,
    `brightness_up`, `brightness_down`);
  - `daemon` — the daemon's decisions as a state machine (`Daemon::step`);
  - `profiles` — profile paths and loading decisions;
  - `led` — the lines written to the LED device;
  - `error`, `text` — errors and character-level helpers.
- `app/` is the program around it: file and sysfs I/O, JSON reading with serde,
  and the loop that performs the actions the daemon decides.
- `tests/` runs the library on concrete values.
