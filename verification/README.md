# app-launcher

A quick application launcher for Linux desktops. It reads the desktop entries
of the installed applications, finds their icons in the current icon theme,
and shows a search window: typing filters the applications by name, Enter or a
click launches the selected one.

The library under `src/` holds the launcher's logic, verified with Verus:

- `engine`: case-insensitive search of the applications by name;
- `applications`: reading desktop entries (`[Desktop Entry]`, `Exec` field codes);
- `icons`, `icon_search`, `icon_lookup`: icon theme indexes, the depth-first
  search for an icon through a theme and the themes it inherits from, and the
  cache of earlier answers with its file format;
- `search_order`: that search stated as a recursion over what the files hold,
  with the proofs that the stepwise search gives the recursion's answer and
  ends, also where themes inherit from each other in a cycle;
- `gui`: what the window does on each event;
- `inifile`: the INI documents of the `ini` crate, behind specified wrappers;
- `strings`, `utils`, `execution`: string operations, paths and settings.

The program under `app/` does the reading of files and directories, runs
`gsettings` and the launched commands, and draws the GTK window; each of its
steps hands plain values to the library and acts on what the library answers.
