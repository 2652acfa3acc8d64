# skillhive

The desktop core of SkillHive, a workspace for creating, versioning and
sharing AI skills: content-addressed skill snapshots, transactional
deployment into agent skill directories, an outbox that pushes local edits to
the server and a change feed that pulls remote ones, a bounded local cache,
and the rules that keep all of it consistent after a crash.

## Layout

- `src/` is the library, verified with Verus. Every decision lives here, with
  its contract: which paths a snapshot, a deployment or an uninstall may
  touch, how an interrupted transaction is recovered, what each server answer
  does to a mutation and its skill, how a pulled page changes the skill table,
  which skills the cache may evict and in what order, which blobs it may
  delete, how a sync cycle's push proceeds, how credentials are named. The
  calls into `sha2`, `uuid`, `chrono` and `serde_json` stand behind small
  trusted wrappers whose contracts say what the crates promise. The calls
  into `keyring` stand behind wrappers that tie each answer to the service,
  account and secret it answers, and promise nothing of which answer it is
  (that is the operating system's); verified functions map every answer.
- `app/` is the runtime around the library: files and directories, SQLite
  (`rusqlite`), HTTP (`reqwest`), zip archives (`zip`), the sync thread and
  the desktop commands. It performs the reads and writes the library's
  decisions call for, checks each library precondition before a call, and
  otherwise leaves the rules to the library.
- `tests/` runs the library on concrete values, through the real outside
  crates.

## Laws

Besides the contracts of each function, `src/` states and proves properties
that span calls as public proof functions (`lemma_*`): bounded and monotone
retry backoff, idempotent replay of an acknowledged outcome, recovery that
never discards a verified backup, eviction that keeps shared blobs, a pull
that never drops unacknowledged local work, conflict resolutions that need
confirmation and clear the chain, journals whose torn tail keeps the last
complete record, and more.

## Paths

Paths are handled as text with one set of rules on every platform: both `/`
and `\` separate components, and a path is absolute when it starts with a
separator or with a drive such as `C:\`. This is the union of the Unix and
Windows conventions, chosen deliberately so that a path (a workspace, a
deployment target, a zip entry) is judged the same on every system; the
platform's own `Path` rules would accept `C:\x` as relative on Unix and
`\x` as rootless on Windows.
