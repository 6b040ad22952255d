# podforge

The core of Podforge, a local music library manager: import albums from a
folder or an audio CD, fix tags for iPod compatibility, look releases up on
MusicBrainz, fetch cover art, and convert between MP3, ALAC, FLAC and AAC.

The library in `src/` is verified with Verus. It holds the decisions: how a
folder scan groups and orders tracks, the `ffmpeg` / `ffprobe` /
`cd-paranoia` command lines and how their output is read, the output-path
layout, the MusicBrainz and Cover Art Archive requests and how their
responses are judged, the iPod-fix workflow as a state machine, settings
with their defaults, and how a tag patch is applied to a `lofty` tag.

Layout of `src/`:

- `text`, `numbers`, `paths` — characters, decimal numbers and Unix paths,
  with their specifications.
- `models` — tracks, albums and scan results.
- `folder_scan`, `order` — grouping scanned files into albums, sorting
  tracks, and the laws about both.
- `convert`, `cd_rip`, `cd_detect`, `disc_id` — conversion and rip command
  lines, progress lines, `diskutil list` output, a disc's table of contents.
- `tags`, `ipod_fix`, `musicbrainz`, `cover_art` — metadata.
- `settings`, `jobs`, `commands`, `bin_path` — what the app's commands and
  background jobs decide.

`app/` is the unverified shell around it: the SQLite database, the tokio
worker pool that runs `ffmpeg` and `cd-paranoia`, file and network I/O, and
the command functions the frontend calls.
