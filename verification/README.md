# qi_lsp

Language-server logic for the Qi programming language (Chinese keywords,
UTF-8 text), written in Verus and proved against its contracts.

## Layout

- `src/` — the verified library:
  - `document`, `rope_text`, `position`, `text`, `word`, `excerpt`: open
    documents, line/column/offset conversions, the word under the cursor;
  - `ast`: the syntax tree the parser produces;
  - `definition`, `references`, `rename`, `packages`: go-to-definition,
    find-references and rename, including imported packages on disk;
  - `hover`, `completion`, `document_symbols`, `workspace_symbols`,
    `type_text`: what the editor shows;
  - `diagnostics`, `semantic`: parse errors and semantic checks;
  - `semantic_tokens`, `folding`, `formatting`: token classification,
    folding ranges and the text a range covers;
  - `server`: where each protocol message goes.
- `app/` — the server program: the stdio connection, the message loop,
  conversions to and from the protocol's types, and the calls into the Qi
  compiler's parser and the Qi tools' formatter.
- `tests/` — tests of the library on concrete inputs.
