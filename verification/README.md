# toasted

Finds packages compromised with cryptocurrency-stealing malware in
`package-lock.json`, `yarn.lock` and `pnpm-lock.yaml` files.

- `src/` is the library, written in Verus: the list of compromised releases
  (`registry`), the readers of the three lockfile formats (`npm`, `yarn`,
  `pnpm`, over the text operations of `text` and the JSON model of `json`),
  the scanner that records findings and errors (`scanner`), and the
  properties that hold of every scan (`laws`).
- `app/` is the command-line program: it walks the directory, reads the
  files, parses pnpm lockfiles as YAML, and prints the report.
- `tests/` runs the library on concrete lockfiles.
