# xmly_exporter

An exporter for albums and tracks of ximalaya.com. Paste the address of an album
(`https://www.ximalaya.com/toutiao/4308484/`) or of a track
(`https://www.ximalaya.com/toutiao/4308484/147135825`), fetch its tracks, look
at their details, and export them as an input file for `aria2c -i`.

The library in `src/` is verified with Verus:

- `text`: decimal numbers (printing and `parse::<u64>`), and the fields of a
  string split at a separator.
- `json`: the JSON answers of the site, with serde_json's reading rules.
- `fetcher`: the addresses asked for, how a listing page, a track record and
  an album name are read, and the aria2 input file.
- `ui`: what the Fetch button fetches for a pasted address, when Export All
  writes, the texts shown for a track, and the pacing of the event loop.

`app/` holds the window, the HTTP client, the clipboard and the file system,
and hands the library plain values.
