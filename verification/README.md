# weather_goblin

A command-line weather tool whose decisions are verified with Verus.

- `src/` is the verified library: the command-line grammar (`cli`), the
  saved-cities store (`storage`), what a run does and the text it shows
  (`session`), the geocoding query (`api`), the weather-code words
  (`display`), decimal text (`text`), the plain data types (`model`) and
  the properties that span several operations (`laws`).
- `app/` is the program around it: reading and writing `cities.json`,
  the HTTP requests, the JSON forms of the documents, and the printed report.
- `tests/` runs the library on concrete values, and checks the grammar
  against clap's builder on a list of command lines.
