# COSMIC ORDER

OMARCHY-inspired workflow and aesthetics for COSMIC Desktop: theme
management with a creation wizard, theme sync to terminal tools, a terminal
screensaver with idle and session-lock integration, and a command line.

## Layout

- `src/` — the library, verified with Verus. It holds the decisions of the
  application as functions with contracts: the screensaver settings file and
  the swayidle configuration, the tool theme generators (Ghostty, lazygit)
  and how they edit existing configuration files, the hooks environment, the
  page models of the settings window (visuals, wizard, tool sync,
  screensaver) as state machines from message to action, the idle and lock
  control, the power profile rules, wallpaper settings, paths, and the
  command-line outputs. Laws such as "parsing a saved settings file gives the
  settings back" or "cancelling a preview restores the theme from before the
  first preview" are proof functions in the modules they concern.
- `app/` — the program around the library: command-line parsing, the
  libcosmic settings window, file and D-Bus I/O, Wayland idle notifications
  and theme reads and writes through cosmic-config.
- `tests/` — tests of the library on concrete values.
