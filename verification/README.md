# hyperion

A voxel game server whose decisions are verified with Verus.

- `src/` is the library: the loaded world and its edits, the format they are saved
  in and the steps that bring it to the disk, weather and what it destroys, the
  assistant on both sides of its pipe, and the games. Every function states what
  it returns, and the `law_*` proof functions state what holds across them.
- `tests/` runs it on concrete values, with the outside crates linked.
- `app/` is the program around it: pipes, files, the network, floating point
  geometry, and the systems of the game loop.

Calls into outside crates stand behind small functions marked
`#[verifier::external_body]`; the comment above each says what is believed of it.
Blocks are numbered as in `valence_generated`, the cache of chunks is an `IndexMap`,
the set of changed chunks a `RoaringBitmap`.

The id of the model that the assistant uses by default is not written down in the
sources: where there is no configuration file and `HYPERION_AI_MODEL` is not set, it
is taken from `HYPERION_AI_DEFAULT_MODEL`, and without that the sidecar does not start.
