# headwind

Headwind turns atomic utility classes in HTML and JSX source into generated
semantic class names and the CSS those names stand for.

The library under `src/` is written in Verus: each public function states what
it returns in its contract, and Verus proves the code against it.

- `parser`, `parse`, `normalize`: class lists into parsed classes.
- `converter`, `value_map`, `theme_values`, `palette`, `plugin_map`, `variant`:
  a parsed class into CSS declarations and selectors.
- `bundler`, `context`, `shorthand`, `merge`, `bundle`, `index`: declarations
  grouped by modifier and written out as CSS.
- `naming`: hash, readable and camel-case class names (hashes through `blake3`).
- `collector`, `html`, `element_tree`, `transform`: naming every class list of a
  source file, rewriting its class attributes, and the outline of its elements;
  `transform` also chooses the syntax of a JSX/TSX file and parses it through
  swc's parser.

`app/` holds what stays outside the proofs: serde forms of the types, loading
an index from JSON, CSS printing through swc, the walk over and printing of swc's JSX AST
and the WebAssembly bindings. `tests/` exercises the library.
