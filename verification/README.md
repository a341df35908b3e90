# langman

A terminal drill for Spanish: it asks an OpenAI model for five
fill-in-the-blank exercises at the learner's CEFR level, checks the set,
stores it in SQLite and grades the learner's answers.

The library under `src/` is verified with Verus:

- `text` – trimming, whitespace collapsing, prefix tests, decimal rendering
  and parsing, blank-marker counting, joining.
- `records` – exercises, grammar rules, sessions, attempts, the database handle.
- `validate` – answer and sentence normalisation, signatures, and the checks a
  generated set must pass (`validate_exercises`).
- `selection` – CEFR levels and the choice of grammar rules for a request.
- `generation` – the request texts, the JSON schema of the answer, model
  settings and the decision on each generated set.
- `json` – the model of a JSON document, the decoding of a response body and
  the search for its generated text, and the JSON lists stored in grammar-rule
  columns.
- `session` – menu choices, grading, the running score and attempt records.
- `ids` – record ids and timestamps.
- `laws` – properties of the library proved over these specifications.

`app/` holds the program: terminal I/O, the HTTP request, the SQLite store and
the serde forms of the records, and writes the library's JSON values out
for the request. It reads `resources/schema.sql`,
`resources/spanish_grammar.txt` and `resources/spanish_grammar_rules.json` from
the working directory at run time.
