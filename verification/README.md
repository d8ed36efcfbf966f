# sq_app

The host side of the Stonqs portfolio tracker, as a verified library: what the desktop app
decides on its own, apart from the portfolio core and from the operating system. Every function
in `src/` carries a contract that Verus proves; the calls into outside crates (`chrono`,
`rust_decimal`, `uuid`, `base64`, `argon2`, `chacha20poly1305`, `std::path`) stand behind small
trusted wrappers whose contracts say what those crates document.

## Layout

- `src/` – the library, one module per concern:
  - `profiles`, `settings`, `periods`, `templates`, `scope`, `secrets` – the stored state of a
    profile and what each change does to it;
  - `vault` – the password vault: what is sealed under which key, and what unlocking opens;
  - `plugins`, `reader` – what a plugin package may contain, where its files go, which reader a
    file is offered to;
  - `refresh` – the decisions of the background quote refresh, and the count a run keeps as it
    walks its instruments;
  - `assistant` – what the AI commands decide before a provider is asked;
  - `csv`, `names`, `forms` – what reports write and what forms read;
  - `market`, `demo` – the demo portfolio's calendar, random source and ledger schedule;
  - `dates`, `amount`, `text`, `paths`, `order`, `error`, `views` – the values the rest is
    written in.
- `tests/` – tests run against the compiled library.
- `app/` – the program around it: reading and writing the files, the keychain, plugin folders.
