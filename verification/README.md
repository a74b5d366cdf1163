# es3

A verified library for reading e-Szignó ES3 dossiers: it parses and
validates a dossier's XML, lists and extracts its documents, and verifies
its XMLDSIG/XAdES signatures, with the verdict split into a structural, a
cryptographic and a trust layer.

The library is written in Verus. Each public function states in its
contract what it returns, over spec functions and views, and Verus proves
the code against it.

## Layout

- `src/` — the library.
  - `xml.rs`, `codec.rs`, `certs.rs`: the calls into roxmltree, base64, zip,
    sha2, x509-cert and Bergshamra, each behind a trusted item whose doc
    comment says what it claims of the outside function.
  - `parsed.rs`, `dossier.rs`, `document.rs`, `transform.rs`, `output.rs`:
    parsing, validation, the dossier model and extraction.
  - `verify.rs`, `signature.rs`: structure reports, the signature pipeline
    (targets, reference policy, the keys handed to the verifier, trust) and
    the verification layers.
  - `cli.rs`, `web.rs`: the decisions of the command line and of the
    browser session, as functions from plain values to plain values.
  - Public proof functions named `law_*` state properties that span
    several functions.
- `tests/` — tests run against the compiled library with the real outside
  crates.
- `app/` — the command-line program: argument handling, file I/O, JSON
  output; it calls the library for everything else.
