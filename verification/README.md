# gity

Gity keeps large Git repositories fast: a background daemon watches
registered repositories, answers Git's fsmonitor queries from a cache of
dirty paths, and runs prefetch and maintenance jobs when a repository has
been idle.

## Layout

- `src/` is the library, written in Verus. Verus proves its functions
  against their contracts, apart from four small trusted wrappers around
  outside calls (see below). It holds request handling and repository bookkeeping
  (`daemon`, `storage`), the idle and reconciliation scheduler (`runtime`),
  the log ring and metrics (`logbook`, `metrics`), path validation and path
  text (`validated_path`, `pathname`, `git_status`), the fsmonitor cache file
  format (`fsmonitor_cache`), and the command line's actions and rendering
  (`cli`). Public proof functions state the laws that hold across calls,
  such as the round trip of the cache file format or what registering a
  repository twice does.
- `tests/` runs the library on concrete values.
- `app/` is the program around the library: argument parsing, sockets,
  the sled database, file watching, Git itself and the background tasks. It
  hands the library plain values and carries out what the library decides.

## Checking

The library is verified with Verus; the tests run with the outside crates
linked. Outside calls that the library makes (SHA-1, hex encoding, lossy
UTF-8 decoding, formatting a duration) stand behind small trusted wrappers
whose contracts are stated next to them.
