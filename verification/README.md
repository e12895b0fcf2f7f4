# tuxedo-driver

A command line tool and a daemon for the features that the TUXEDO drivers offer on Uniwill
laptops: fans, performance profile, charging profile, keyboard backlight, Fn lock, start on
AC, USB powershare.

- `src/` is a library, verified with Verus. It decides which request is made of
  `/dev/tuxedo_io`, what is written to `/sys/devices/platform/tuxedo_keyboard`, what is
  printed, how fast the fans run, when the fan loop hands them back to the firmware, and which
  failure a run ends with.
- `app/` performs the actions that the library asks for. It reads the arguments and the
  configuration file, and runs the daemon when it is called `tuxedo-driver-daemon`. Should a
  panic cut the fan loop short, it hands the fans back on its own.
- `tests/` runs the library on concrete values.

The library trusts one function of the standard library, `String::from_utf8_lossy`, which
reads the strings that the driver hands out.
