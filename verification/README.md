# easel

The domain core of Easel, a multi-monitor wallpaper manager, written in Verus: the
functions in `src/` carry `requires`/`ensures` contracts that Verus proves, except a few
small trusted wrappers around outside code, whose contracts are believed.

- `src/` — the verified library: display geometry and identity rematching, scale factors,
  schedules and calendars, rotation queues, collections, hotplug policy, dynamic still sets
  and their evaluation, Apple dynamic-desktop metadata, HEIC encode planning, Plasma
  day/night packages, media probing, acquisition rules, and command-line argument parsing.
  Calls into `uuid`, `base64`, `image` and `url` sit behind trusted wrappers
  (`random_uuid`, `parse_uuid`, `hyphenate_uuid`, `base64_decode`, `read_header_dimensions`,
  `read_gif_decoded_delays`, `parse_url_parts`, `file_url_text`), as do two std calls
  (`String::push` in `push_char`, `String::from_utf8` in `utf8_text`); their contracts
  say what those crates and std document, and Verus takes them on trust.
- `app/` — ordinary Rust around the library: the command-line entry point, file and
  plist I/O, and the physical-layout code whose measurements are real numbers.
- `tests/` — tests of the library from the outside.

Verify the library with Verus; build and test with Cargo as usual.
