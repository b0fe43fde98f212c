# apifs

A FUSE filesystem whose files and directories mirror the objects of a REST
API. The library (`src/`) holds the filesystem's logic, verified with Verus:

- `directory`: a directory's entries, a name-to-inode map kept in insertion
  order with distinct names;
- `endpoint`: files and directories, their inode numbers (the hash of their
  path) and the attributes reported for them;
- `filesystem`: the table of endpoints by inode and the answers to lookup,
  getattr, read and readdir;
- `backend`: the address of an endpoint and the objects that its JSON answer
  holds;
- `timestamp`, `definition`: times, and the API's definition;
- `laws`: what holds across these answers.

`app/` is the program around it: the YAML definition file, the actix actors,
the HTTP requests and the FUSE callbacks, which hand the library plain values
and reply with what it returns.
