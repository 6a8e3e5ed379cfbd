# jsxrs

Renders JSX/TSX modules to complete HTML documents: props and expressions,
components, a `<Head>` component merged with configured head elements, optional
Tailwind CSS, fragment output for HTMX, a file-system router for Axum, and Rust
types generated from TypeScript interfaces.

## Layout

- `src/` is the library, verified with Verus. It works on a model of the syntax
  tree (`ast`) and of JSON (`value`); its rendering functions are specified by
  spec functions of the same shape (`renderer::s_module`, `s_element`, ...), and
  the top-level `render_string` by `page`. Laws about the library stand beside
  the functions they concern (escaping, head merging, fragments, documents,
  route ordering, text normalisation, name binding).
- `render_string` takes the raw source and parses it with swc
  (`parser::parse_source`); the parse and the conversion of swc's tree into the
  model stand behind trusted items in `frontend`, and the contract is stated over
  the name `swc_module` that they give the result. `render_module_page` renders a
  parsed module with an exact contract. Double arithmetic, parsing and display are
  asked of a float oracle that the caller supplies (`num`); Tailwind CSS comes from
  `encre_css`, behind one trusted wrapper (`tailwind`).
- `app/` holds what the verifier does not see: JSON conversion, file and
  directory I/O, component loading, the Axum router and handlers, and the error
  type with `Display`.
- `tests/` runs the rendering scenarios through swc (`render.rs`) and the
  library's parts on given values (`library.rs`).
