# FUIDE Git

A git client with a tactical-console look. Reading and writing both go through the `git` command
line; nothing else touches a repository.

    src/      the library, verified with Verus
    tests/    its tests
    app/      the window (egui / eframe, with the `fuide` widgets), the threads and the processes

## The library

- `git` — what is asked of `git` and how it is started (`command`), what its output means
  (`status`, `log`, `refs`, `diff`, `time`), the lanes of the commit graph (`graph`), and the
  commands in flight (`worker`).
- `app` — the state of the application (`state`) and what happens to it: actions (`apply`, with
  `run` and `open`), messages (`poll`), selections (`select`), keys (`keys`), frames (`frame`),
  and what the agent interface is told (`agent`).
- `panel` — what each panel shows: texts, tones, and what can be pressed.
- `text`, `number`, `path`, `words` — the texts that all of it is made of.

Each executable function states what it returns or changes over mathematical models of its data
(`GitAppModel`, `StatusModel`, `DiffModel`, ...). An action or a message is a step from one state
to the next, together with the effects that the window has to carry out; the window hands back
what came of them.

What holds of the library as a whole is stated and proved as well: `git::graph_laws`,
`git::diff_laws`, `git::read_laws` and `app::laws`. Among these: one command runs at a time, every
command is followed by a read of the whole repository, changes are thrown away only after a
confirmation, the patch that stages a hunk holds that hunk and no other, every line of the commit
graph leads from a child to its parent, and what `git` writes in the formats that are asked of it
is what is read.

Trusted are `String::push`, `String::from_utf8_lossy`, `str::to_uppercase`, the `Debug` form of a
text, and the local time that `chrono` writes.
