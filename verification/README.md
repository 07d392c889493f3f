# wl_mouse

A command-line tool for WLmouse gaming mice (DPI, polling rate, lift-off
distance, debounce, angle snapping, motion sync, ripple control, sleep time,
factory reset), with its core verified in Verus.

- `src/` is the verified library:
  - `report`: builders and parsers of the 64-byte HID feature reports;
  - `transport`: framing, and the retry decisions of a request/response exchange;
  - `devices`: device names, which enumerated interfaces are listed, which device to open;
  - `settings`: the rules for on/off words, polling rates, DPI stages and sleep times;
  - `types`: the reported records; `wrap`: the apply/restore plan of the `wrap` command;
  - `hyprland`: window lookup in `hyprctl clients -j` output, and focus tracking;
  - `laws`: properties that relate several of these functions.
- `app/` is the program around it: argument parsing (clap), HID I/O (hidapi),
  JSON output (serde), sleeping between retries, and the lift-off distance as a float.
- `tests/` runs the library on concrete reports and inputs.
