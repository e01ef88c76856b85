# nhentai_archivist

Downloads galleries from nhentai.net into a library of CBZ files, keeping their
metadata in an SQLite database. It runs once (client mode) or keeps a library
up to date from a tag search (server mode, when `NHENTAI_TAGS` is set).

## Layout

- `src/` is the library, verified with Verus: reading and writing the
  downloadme files and console input, the order of the sources of the list to
  download and the dontdownloadme filter, the addresses asked of the API and
  what each status means, the walk over the pages of a tag search and the
  sorted collection of its results, the rows that one answer writes to the
  database (and which of its statements have values to run), the paths,
  addresses and file names of a gallery, and the decisions of a download and
  of a round of the program.
- The title in a CBZ file name loses the characters that file names may not
  hold and is cut at grapheme boundaries to at most 243 bytes. Its byte
  length is counted in 16 bits: a title of 65536 bytes or more whose length
  modulo 65536 is at most 243 is kept whole.
- `app/` is the program around it: settings, logging, HTTP requests
  (reqwest), the database (sqlx), files, the CBZ archive (zip), and the async
  runtime (tokio). It calls the library for every decision and every value it
  computes.
- `tests/` exercises the library on concrete values.

## Not included

- No `ComicInfo.xml` is written into the CBZ files, and with
  `CLEANUP_TEMPORARY_FILES = false` no `ComicBook.xml` is saved beside the
  images: the definition of that metadata file is not part of this source.
- `DOWNLOAD_WORKERS = 0` counts as 1.
