# rustfs_core

The decisions of a distributed object store, written in Verus and proved:

- a write over all disks of an erasure set: recording the answers in whatever
  order they come, answering once a quorum agrees, undoing what a missed quorum
  left behind, and cleaning up after the disks that were late;
- the journal that lets a crash be cleaned up after;
- purging objects that too few disks still hold, and conditional writes;
- the pools of connections to peers, and how a peer is dialled;
- bodies that must not end early, lock diagnostics and request spans.

`src/` is the library. Every function in it states what it does and is proved to
do it. Calls into other crates stand behind small functions whose doc comments
say what is taken on trust. Laws that span several functions are proof functions
whose names start with `law_`.

`tests/` runs the library. `app/` is the runtime around it: tasks, disks,
sockets, settings of the process and log lines.
