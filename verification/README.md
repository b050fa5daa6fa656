# nymphalis

A command-line download manager for booru imageboards (gelbooru.com), manga
readers (desu.uno, mangadex.org) and Patreon, whose decisions are verified
with Verus.

## Layout

- `src/` — the verified library. Every public function states in its
  contract what it returns:
  - `commands`, `service`, `config`, `i18n`, `usage`: the command line, the
    settings file's contents and `set`, messages in English or Russian;
  - `text`, `json`, `pattern`, `order`: text handling, JSON documents as
    plain values, regular-expression matches, stable ordering;
  - `desu`, `listing`, `account`, `pages`, `ranobe`, `epub`: desu.uno pages
    and API answers, the search for a chapter's pages, ranobe chapters and
    the EPUB (stored ZIP) books they are saved as;
  - `gelbooru`, `mangadex`, `patreon`, `kodik`: the other services' queries
    and answers;
  - `browser`, `http`, `cli`, `shell`, `version`, `release`: launching a
    browser, cookie queries, file names, the display's labels, shell
    completions, and release checks;
  - `xhtml`: what the XHTML clean-up's replacements and tag closing leave
    out, used to prove that cleaning twice changes nothing;
  - `laws`: properties that relate several functions, proved.
- `tests/` — tests run against the compiled library.
- `app/` — the program around the library: argument handling, files,
  HTTP, browser processes, progress bars and threads.
