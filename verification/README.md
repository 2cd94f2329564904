# easyeda2altium

Converts LCSC/EasyEDA components into Altium `.SchLib` and `.PcbLib` files.

The crate is in two parts.

- `src/` is the library, written in Verus and verified: reading the EasyEDA
  API record (`cad`, over the library's own `json` values), reading shape
  strings (`shape`), the descriptive fields of components (`meta`), the
  `--strip-chinese` clean-up (`strip`), the command-line rules (`cli`), the
  API addresses, cache names and answer envelope (`api`), and the parts of
  the conversion that do not depend on coordinates (`convert`: layers, pad
  and pin styles, bounding boxes in integer units; `svg`: the tokens and commands of SVG
  paths). `text` holds the
  character-level operations and the spec functions the contracts use.
- `app/` is the program: the command line (clap), the HTTP client and cache
  (reqwest, tokio), JSON decoding (serde_json), the floating-point
  coordinates, and the Altium writer.

Coordinates in EasyEDA data are floating-point, so shape fields leave the
library as text and the program converts them.
