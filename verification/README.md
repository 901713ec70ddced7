# declaratest

Turns a structured markdown test description into a DOCX test paper:
short and long answer questions with answer lines, vertical and horizontal
matching, fill-in-the-blanks, and oral questions with an assessment sheet.

The library under `src/` is verified with Verus:

- `parser` reads a description into a `TestData` (`types`), line by line;
  its contract is a specification of the whole grammar.
- `template` turns the styles read from a template document into the page
  setup and style table of the output, adding the default styles that a test
  needs; it also builds the two starter templates. `template_file` reads
  the styles of a DOCX template from the file's bytes with `docx_rust`.
- `generator` lays a test out as a `DocumentSpec` (`document`): paragraphs,
  runs and tables, with `markdown` for inline emphasis.
- `render` hands the document model to `docx_rs`; each builder call states
  what it does to a model of the `docx_rs` value, and each rendering
  function states the model of what it builds.

`app/` is the command-line program: it reads and writes files, prints the
diagnostic listing of a template, and works out the layout widths, which
are given in fractional points.
