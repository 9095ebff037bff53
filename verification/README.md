# linguist

Language detection and indexing rules for source files, verified with Verus.

- `src/` is the library. It detects the language of a file from its
  modelines, file name, shebang, extension, XML declaration, manual page
  name and content heuristics (`detect`), and decides whether a path is
  vendored, generated, a test, documentation or a dependency manifest, and
  whether a file is fit for indexing (`indexable`).
- The library holds no global state: `init` builds a `Linguist` from the
  contents of the linguist data files (`languages.yml`, `popular.yml`,
  `generic.yml`, `heuristics.yml`, `vendor.yml`, `tests.yml`,
  `documentation.yml`, `dependency_management.yml`), given as plain records.
- `app/` reads those YAML files, keeps a shared instance, records timing
  metrics, exposes the C interface and holds the helpers that read the
  sample files.
- `src/laws.rs` states properties that span several functions.
