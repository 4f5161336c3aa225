# flams

A verified library for parts of the FLAMS / FTML system:

- the type checker's logs and results: their success, their filtering down
  to failures, their rendering as plain or coloured text;
- the marker and bookkeeping rules of the checker (priorities, display
  texts) and ordered rule lists; the decisions of beta reduction (when it
  applies, how it splits the arguments, what it does with each); cancellation tokens and the decisions of
  the strategies by which the checker splits its work;
- the URI combinators of the ontology and base URIs;
- from the language server, over a model of the sTeX annotations that
  holds what the editor's services read of them: semantic highlighting
  and its encoding for the editor, document links, the document outline, hovers, go-to-definition, the module call
  hierarchy, the capabilities the server announces, quick fixes
  (disambiguation and annotation suggestions), the edits of
  `snify/annotate`, and the decisions of an HTML build (when to build,
  which diagnostics fonts and RusTeX errors give); also text positions,
  symbol disambiguation and diagnostics of symbol checks;
- from the web server: request query parameters, auxiliary-file queries and
  image content types.

The checker's own work (type checking, inference, substitution) and most
of the web server are not here: they work on data of crates that this build does not
have.

- `src/` is the library, written in Verus: every function has a contract,
  and the laws of the library (filtering keeps success and leaves failures,
  filtering twice changes nothing, the coloured rendering without its
  escape codes is the plain one (where the plain text holds no complete
  escape code of its own), parsing `a/b` is joining, going deeper and
  back up returns to the same depth, ...) are proof functions.
- `tests/` runs the library on concrete values.
- `app/` is a small program around it: it reads a document check result
  saved as JSON and prints its report; it also holds the serde copies of the
  result types and the splitting strategies that run on rayon's threads.
