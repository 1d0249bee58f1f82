# PowerEXT

PowerEXT watches a directory tree. When a file is renamed so that only its extension changes, it
keeps a backup of the file, asks the user, and converts the file to the format that the new
extension stands for. Renaming the file back restores the backup. Numbered files that are renamed
together (`clip.001.png`, `clip.002.png`, ... to `.mp4`) are merged into one video, or into one
animation where the new extension is `.gif` or `.webp`. For an animation each file is read in the
format of its new extension, so files that hold another format, such as PNG pictures renamed to
`.gif`, are backed up but not merged.

- `src/` is the library, verified with Verus: the comparison of snapshots, the handling of renames
  and sequences, the routing and the steps of conversions, the statements for the database, the
  messages to the user and the steps that install the service. Its decisions are functions from a
  state and an event to the next state and the next thing to do.
- `src/*_laws.rs` state and prove what holds of every run: that no bytes are ever lost, that a file
  that is renamed back gets its bytes back, that frames are removed only after they were saved.
- `app/` is the program around it: the command line, the file system, the database, notifications,
  outside programs and the drawing of PDF pages.
- `tests/` runs the library with the real image library and the real database.

Pictures are converted between BMP, GIF, ICO, JPEG, PNG, QOI, TIFF and WebP; these are the codecs
that the image library is built with.

The library trusts what `src/pictures.rs` says of the `image` crate, `src/backup.rs` of the `uuid`
crate and `src/text.rs` of `str::to_ascii_lowercase`.
