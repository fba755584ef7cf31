# prgit

A bridge between Perforce and git: submitted Perforce changes are mirrored
into git commits on a synced branch, and pushed git branches are shelved
back into Perforce as shelved changelists.

The library in `src/` is verified with Verus. It holds the decisions of the
bridge, each with a contract:

- `perforce/`: file types, change forms, the arguments of `p4` commands and
  how their failures read.
- `mirror/`: view mappings, the plan of a commit for a change, commit
  notes, and the state a mirror keeps between runs.
- `shelf/`: which files a shelve holds, `.prgitignore`, shelve workspaces.
- `window/`: routing of git requests, push decisions, packet lines, CGI
  replies, basic credentials, events and their queries, the shelve tracker.
- `cabinet/`: table schemas, configuration, ticket keys and expiry.
- `text.rs`, `util/`: strings, lines, numbers, paths, a string-keyed map.

`app/` is the program around it: the HTTP server, the database, git and
`p4` processes, the keyring and the command line. `tests/` runs the
library against concrete values.
