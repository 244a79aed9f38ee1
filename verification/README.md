# thufs

`thufs` is a shell-first client for THU Cloud Drive (a Seafile service): it
lists libraries and directories, uploads and downloads single files with a
uniform conflict policy, and creates and lists share links.

The crate is split in two:

- `src/` is the library, verified with Verus. It holds every decision the
  client makes: how remote paths such as `repo:<library>/<path>` are read and
  normalized, how share URLs and hashcodes are recognised, where an upload or a
  download lands and which `-(n)` sibling name resolves a conflict, how a
  download is split into byte ranges or resumed, how pages of share links are
  cut, how the configuration file and environment overrides combine, and how
  results are rendered for humans.
- `app/` is the command-line program around it: argument parsing, the HTTP
  requests, the file system, progress bars and JSON output.

Module map of the library:

| module | contents |
| --- | --- |
| `contract` | remote path syntax and normalization |
| `config` | settings, environment overrides, configuration file location |
| `auth` | storing a token, inspecting the settings in effect |
| `account` | account summary, libraries sorted by name |
| `listing` | directory entries and their rendering |
| `push`, `pull`, `create` | upload, download and creation plans and reports |
| `paths`, `local` | remote and local names and paths |
| `share` | share URLs, share-link requests, paging |
| `seafile` | library lookup, authorization, endpoints, download planning |
| `headers` | `Content-Range` and `Content-Disposition` parsing |
| `transfer` | conflict, download and progress modes; size formatting |
| `text`, `error`, `output` | string helpers, error messages, output lines |
