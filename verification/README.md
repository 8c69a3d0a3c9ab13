# devbrowsers

The verified core of a desktop launcher for development browsers
(Chromium over the DevTools protocol, Firefox over WebDriver BiDi) that
keeps per-project service lists and fills login forms with credentials
from a KeePass vault driven through `keepassxc-cli`.

- `src/` — the library, verified with Verus: character-level text
  operations (`text`), JSON documents and their reading (`json`), the
  protocol requests and replies (`cdp`, `bidi`), browser command lines
  (`browser`), the vault's commands and answers (`vault`), the choice of
  the credential for a tab and the script that fills it in (`inject`),
  projects (`project`), the clipboard (`clipboard`) and the window tabs
  (`app`).
- `tests/` — tests of the library on concrete values.
- `app/` — the program around it: the eframe window, processes, sockets,
  HTTP and files.
