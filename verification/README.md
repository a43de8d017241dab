# slicefs_cli

The command-line front end of SliceFS, a content-addressed, deduplicating
filesystem mounted through FUSE, written in Verus.

`src/` is the verified library: the argument grammar, backend selection for
FUSE-T, mount options and the `fuse-t.ini` edit, segment ids, the snapshot and
unmount step machines, statistics and scrub reports, date and size formatting,
and the decisions of the filesystem layer (write routing and buffering of open
handles, truncation, reference counts on commit and release, rename/unlink/rmdir
rules, mode bits, `statfs`, extended-attribute replies). Each public function
states its result in its `ensures`, except where the result rests on the clock
(`util::ts`) or on the platform's open-flag values (`filesystem::open_access`):
there it states what holds of every outcome, and `format_clock` and
`classify_open_flags` state the rest exactly. The `law_*` proof functions state
what holds across calls.

`app/` is the program around it: `main`, the `clap` and `serde` copies of the
library's types, the probes of the machine, the store and metadata I/O, and the
`fuser` callbacks. It calls the library for every decision.

`tests/` runs the library on concrete values.
