# depot_downloader

A Steam depot downloader: it looks games up in the Steam store, fetches
depot keys and manifests from ManifestHub, decrypts them with AES-128-CTR
and downloads the files of a depot from Steam's content servers, in a
window drawn with egui.

## Layout

- `src/` is the verified library, written in Verus. It holds the logic:
  the depot-key text and VDF formats, hex, manifest comparison, the stored
  file names and key files, the content-server pool, sign-in, the settings,
  the course of a depot download, the log and the state of the window and
  its dialogs. Public functions state in their `ensures` what they return;
  where the result depends on the environment (the user's directories, the
  clock, a random draw) they state what holds of every outcome. The `law_*`
  proof functions state properties that span several functions (round
  trips, invariants).
- Calls into outside crates (`aes`/`ctr`, `hex`, `rand`, `dirs`, `chrono`)
  and the few std functions that vstd does not specify are made by small
  trusted wrappers, each with a doc comment saying what its contract claims.
- `app/` is the code around the library that Verus does not see: file and
  network I/O (`tokio`, `reqwest`), JSON (`serde`), floating-point progress
  figures, and the egui window.
- `tests/` runs the library on concrete inputs.
