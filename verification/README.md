# Audio Switch

A Windows tray icon that rotates the default audio output device: a click goes to the next
selectable device, a right click shows a menu in which each device can be taken out of the rotation.

- `src/` is the verified library. It holds the rules and makes no system calls: `device` (what an
  endpoint's properties say), `rotation` (which device comes next), `menu` (what stands in the popup
  menu and what choosing an item does), `state` (the choices kept from one run to the next),
  `message` (which window messages matter), `switch` (the state behind the icon), `effect` (what the
  system is asked to do), `utf16` (text as Windows structures hold it), `error` and `search`.
- `app/` is the program: it queries the system, hands the answers to the library, and carries out
  the effects that the library returns.
- `tests/` runs the library.
