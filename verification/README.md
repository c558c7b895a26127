# tauri-plugin-corner-snap

Keeps a Tauri window parked against an edge or corner of the screen: dragged
anywhere, it slides back to whichever of nine slots it was dropped nearest,
sized for that slot.

The library in `src/` holds every decision, each with a contract proved by
Verus:

- `geometry` -- slots and their alignments, where a window sits in a slot,
  centres, the nearest slot, and the shrink-move-grow steps that keep a window
  on the screen while it changes shape.
- `shape` -- the size a state takes in each slot, turning and stretching.
- `config` -- the rules a configuration sets: managed windows, the slots a
  drag may reach, where a window opens, state names, and the settings that can
  never take effect.
- `placement` -- choosing the slot and deciding whether to move, leave, or give
  up on a window.
- `report`, `record` -- whether a placement is news, and what is remembered
  about each window.
- `names` -- sorting and listing state names.
- `watcher` -- when to snap: a drag ends once the window has been quiet for
  the snap delay, and a timer pokes as a backstop; and the handle that keeps
  a window's threads alive.

`app/` is the Tauri plugin around it: reading `tauri.conf.json`, scaling
logical sizes to the monitor (floating point), talking to windows and
monitors, running the threads' receives, the commands and the event.
