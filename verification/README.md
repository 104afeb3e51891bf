# vmbuild

Builds ext4 root filesystems for micro VMs from a Dockerfile, and keeps them in
a store addressed by what was built. Written in Rust and verified with Verus.

The library under `src/` holds every decision; the program under `app/` carries
out what the library asks for. An operation is a *procedure*: a value that asks
for one thing at a time, is handed the reply, and gives its result in the end.
So every decision is a function from a state and a reply to a state, and is
stated exactly.

| module | what it is about |
|---|---|
| `procedure` | procedures, and what holds of all their runs |
| `host`, `disk` | what can be asked for, and what it does to files |
| `store` | the store: put, get, install, materialize, release, list, evict |
| `store::laws`, `store::frame` | what these do to the files |
| `store::gc_laws`, `store::gc_exact`, `store::gc_sizes` | what an eviction removes, keeps and reports |
| `store::copy` | copying without holes, and sharing blocks |
| `zfs` | the same on ZFS, with a dataset for each image |
| `zfs::laws`, `zfs::gc` | what these do to the files there, and what an eviction keeps to |
| `key` | the key of an image |
| `ext4` | names, sizes, the writer, and what is done to a finished image |
| `ext4::laws` | what becomes of a whole archive |
| `buildkit`, `build` | asking BuildKit, and building what is not stored yet |
| `doctor` | what this machine does with a copy |
| `cli` | what the options mean |
| `text`, `number`, `path` | strings, numbers and file names |

What is taken on trust is marked `external_body` or `assume_specification`, and
says so: SHA-256, the fields of archive headers, the names in an archive, a JSON
array of strings, UUIDs, and a few functions of the standard library.
