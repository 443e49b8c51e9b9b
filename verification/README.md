# nullbyte

The core of a libretro front end, written in Verus: the rules of a ROM library and of an
emulator session, each function with a contract that the verifier proves.

- `src/` is the verified library: ROM identity hashes and directory-scan rules, title
  cleaning, archive entry selection, the ScreenScraper reply model, HTML entity decoding,
  region and language priorities, media choice and image sizes, rate-limit and cache
  rules, the sample ring, pixel-format conversion and PNG encoding, input mapping,
  hotkeys and the input router, the emulation runner's state machine, the data-directory
  layout and the query text for the game list.
- `app/` is ordinary Rust around it: the environment, files, ZIP and 7z archives, the
  SQLite database, JSON, and the floating-point audio path.
- `tests/` runs the library on concrete values.
