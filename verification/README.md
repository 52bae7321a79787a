# open_cad_studio

The verified core of Open CAD Studio, a CAD application, written in Verus.

- `src/i18n.rs`: the UI languages, the names they are stored under, the locale
  tags they request and the localized titles of ribbon modules.
- `src/modal.rs`: the titles and sizes of the modal dialogs and the texts of
  the confirmation dialogs.
- `src/pid.rs`: the text rules of the SmartPlant `.pid` import (symbol names,
  template placeholders), its layer table and its evidence counts.
- `src/text.rs`: character-level helpers (trimming, comparison, decimal
  notation).

`app/` holds what stays outside the proofs: the process-wide localization
loader and its embedded resources, the serde form of the language setting, and
the floating-point geometry of the `.pid` import.

Neither part holds the `iced` widget trees of the dialogs (the GUI toolkit and
the application's `ui` modules are not part of this crate) nor the background
font warm-up, which needs the application's font modules and a thread.
