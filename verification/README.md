# forge_approval_template

Pre-fills a Marketplace app approval submission from a Forge app's
`manifest.yml`: the security questionnaire, the listing details, and the checks
likely to get the app rejected, each answer with its evidence and with how much
to trust it.

The library is written in Verus. Every function states what it returns in its
contract, and Verus proves the code meets it, except for a few trusted calls
whose contracts are believed: the `serde_yaml` parse in `src/yaml.rs`, and the
std calls `str::to_lowercase`, `char::is_alphanumeric` and `String::push` in
`src/text.rs`. Trimming white space is proved against its Unicode definition.

## Layout

- `src/yaml.rs`: a YAML document as plain values; the `serde_yaml` parse sits
  behind one trusted call, and the lookups the reader makes are proved.
- `src/manifest.rs`: reading the facts out of a manifest, each field specified
  over the YAML tree.
- `src/facts.rs`: the facts themselves, and the classification of egress
  destinations, scopes and host products.
- `src/questionnaire.rs`: the Forge security questionnaire, as data.
- `src/answers.rs`: the rules that answer it, and the gating of sub-questions.
- `src/flags.rs`: pre-submission checks, most severe first.
- `src/listing.rs`: the listing half of the submission.
- `src/code_analysis.rs`: the results of a scan of the app's source.
- `src/report.rs`: the assembled submission and its coverage.
- `src/render.rs`: the Markdown report, specified section by section.
- `src/layout.rs`: what holds of the report's layout: its headings, and
  exactly one table row per question.
- `src/lines.rs`: text taken line by line, as `str::lines` splits it.
- `src/command.rs`: the decisions of the command-line program.
- `src/text.rs`: string helpers over `Seq<char>` views.
- `app/`: the command-line program, which reads the manifest, writes the
  report, and serialises it to JSON or YAML.
- `tests/`: the test suite.
