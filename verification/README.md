# cipher

A command-line tool for translating book chapters with language models,
built around a verified library.

The library (`src/`) holds the rules of a translation run, each function
with a contract that Verus proves:

- `glossary`: term keys, smart and full term selection for a chapter,
  merging and de-duplicating terms, closest-match suggestions.
- `translate::rerun`: which chapters a glossary or source change forces to be
  translated again, and when the glossary baseline moves.
- `translate::orchestrate`, `translate::cmd`: profile resolution, skip and
  retry decisions, reply validation and repair, chapter results and run
  totals.
- `book`, `import`, `config`, `state`, `validate`: book layout and paths,
  chapter ordering, EPUB chapter import, provider profiles, tracked state
  and source hashes, translation validation.

Laws that relate several functions are public proof functions whose names
start with `law_`.

`app/` is the command-line program around the library: argument parsing,
files, terminal output, network calls to the providers, and the loop of a
translation run. `tests/` holds the library's tests.
