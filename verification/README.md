# cargo_generate

The rules by which a project template is located, configured, filled in and expanded, as a
library that Verus verifies.

- `src/` holds the rules. Each function states in its contract what it returns; the functions
  named `law_...` prove what holds across them.
- `app/` holds what touches files, repositories, scripts and the user. It performs the steps
  that the library asks for, and hands back what came of them.
- `tests/` runs the library, with the outside crates that it calls.

## Modules

| Module | What it is about |
| --- | --- |
| `text` | numerals, joining and splitting, suffixes |
| `path` | paths as a root and names |
| `values`, `table` | values that a user provides, and tables of them |
| `slots` | what the user is asked for, and what stands in for an answer |
| `config`, `merge`, `merge_laws`, `round_laws` | configurations, and merging what stands under conditions |
| `liquid` | provided values as variables of the template engine |
| `version` | what a template requires of the generator |
| `locate`, `locate_laws` | finding a template and its files |
| `source` | getting a template into a temporary folder |
| `expand`, `expand_laws`, `generate` | the course of an expansion and of a generation |

## What is trusted

Calls into `toml` (`values::datetime_string`), `semver` (`version::parse_version`,
`version::parse_requirement`, `version::requirement_matches`) and `liquid-core`
(`liquid::object_contains_key`, `liquid::object_insert`) stand behind contracts that are believed
without proof. `kstring` is named in `Cargo.toml` only to hold it to a version that the compiler
supports.
