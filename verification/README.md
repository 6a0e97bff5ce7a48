# Orbit

Orbit gathers, for every application installed on a Linux system, one
canonical footprint (`AppFootprint`): its files, configuration, sizes,
dependencies and metadata, whichever of RPM, dpkg/APT, Flatpak, Snap or
loose AppImage files it came from. It also plans staged removals and
decides what to do as the package manager carries them out.

## Layout

- `src/` is the verified library (Verus). Each backend adapter under
  `src/adapters/` reads what its tool prints (`rpm`, `dpkg-query`,
  `apt-cache`, `appstreamcli`, `flatpak`, `snap`, `du`, `file`) into
  footprints, dependency lists and removal plans; `uninstall.rs` holds the
  staged plan and the removal decisions, `sizes.rs` the size accounting and
  the human-readable byte counts, `discovery.rs` the bookkeeping of a scan
  across backends, and `laws.rs` properties that span several functions.
  `text.rs` specifies and implements the string handling the parsers rely
  on (`split`, `trim`, `lines`, number parsing, ...).
- Facts that come from outside code are stated in a few small trusted
  items: `paths.rs` (`std::path`), `case.rs` (Unicode case mapping),
  `clock.rs` (`chrono` and `std::time::SystemTime`) and `cancel.rs` (`tokio_util`'s cancellation
  token).
- `app/` is the program around the library: it runs the tools, reads the
  file system, stores the index in SQLite and shows the GTK interface.
- `tests/` exercises the library on concrete outputs of the tools.
