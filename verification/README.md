# mineradio

The backend of the Mineradio desktop music player as a Verus-verified
library, with the desktop I/O around it.

- `src/` is the verified library. Each public function states in its
  contract what it returns: the cover extraction from ID3v2 and FLAC files
  and its LRU cache, the folder scanner's collection rules, the Wallpaper
  Engine package table and type detection, the Netease `weapi`/`eapi`
  encryption and request shapes, the cookie handling and QQ Music QR login
  protocol, the reply records shown by the front end, the weather radio's
  mood and song clean-up, version comparison, the hotkey plan, and the
  helper-process restart policy. Laws that relate several calls are public
  proof functions (`lemma_*`).
- Outside crates (`aes`, `cbc`, `ecb`, `md5`, `base64`, `hex`, `num-bigint`,
  `rand`, `qrcode`, `serde_json`) are called from small trusted wrappers whose
  contracts name or state what the crate computes.
- `tests/` runs the library on concrete values, including known-answer
  vectors for the encryption.
- `app/` performs the file-system, process and network I/O (`walkdir`,
  `sysinfo`, `reqwest`) and converts between JSON replies and the library's
  records.

The desktop-window layer is not here: the main-window setup, the desktop
lyrics and wallpaper windows, the web login window, the folder and file
dialogs and the global-shortcut registration need a desktop GUI framework and
Win32 calls that this crate does not depend on. Their decisions (login window
state and page actions, click-through styles, the hotkey plan, the Wallpaper
Engine window embedding) are in `src/`; `app/hotkeys.rs` takes the shortcut
service as a function.

Verify with `verus` on `src/lib.rs`; the tests run with `cargo test`.
