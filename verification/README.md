# scoopgui

A graphical front end for the Scoop package manager on Windows, with its
logic written in Verus and proved.

- `src/` is the verified library:
  - `text.rs`: Unicode white space, trimming, line and word splitting and
    joining, on a string's characters.
  - `listing.rs`: reading the tables that `scoop list`, `scoop search` and
    `scoop bucket list` print.
  - `scoop.rs`: the arguments of each `scoop` command, the command line, and
    the handling of a running command's output and exit status.
  - `gui.rs`: the state the window shows, how background messages change it,
    and how it answers clicks and searches.
  - `model.rs`: packages, buckets and the messages that carry them.
  - `laws.rs`: properties that span these functions.
- `app/` is the program: the egui window, spawning PowerShell with tokio,
  and the background threads.
- `tests/` runs the library on concrete output.
