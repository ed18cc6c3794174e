# deslop_recipes

Graph-grounded Rust refactoring recipes, verified with Verus.

A recipe names a transformation (merge adjacent conditions, invert a
guard clause, inline a single-use helper, remove an unreachable literal
statement, sort an import block, ...), the graph conditions that must be
proven or disproven before it may apply, its fixtures, and its validation
and rollback plans. A detector reads a retained projection of a program
(syntax tree, control flow, control regions, data flow, program and system
dependence facts) and proposes one transformation candidate per site it
finds, each bound to its recipe, its evidence, its impact cone and its exact
edits.

## Layout

- `src/` is the verified library:
  - `model`, `text`, `order`, `json`, `identity`: layers and spans, canonical
    text, key order and sorting, JSON framing, content identities;
  - `contract`, `recipe`, `evidence`, `target`, `candidate`, `impact`: the
    recipe and candidate contracts, their wire forms and identities, and
    impact cones over dependence graphs;
  - `recipes/`: every recipe, the catalog, and the detectors over their
    projection models (`retained`, `inline_detect`, `local_detect`,
    `ordering_detect`, ...);
  - `evaluation`, `clarity`, `semantic`, `report`: the corpus cases,
    clarity records, semantic dispositions and report rows;
  - `project`: detection over one combined projection (the unreachable
    statement and branch fragment detectors, merged in identity order) and
    the check that a selected input path is canonical.
- `tests/` exercises the library on hand-built projections.
- `app/` holds what Verus does not read: wire types with serde derives,
  error types with thiserror, file walking and floating-point statistics.

## The catalog

The catalog holds the 14 recipes that are defined. Two further recipes are
named in the design, the single-use conversion-allocation inline and the
responsibility split, but neither has a definition (no draft, conditions,
fixtures or plans), so neither is in the catalog.

The extract-method recipe is defined and in the catalog, but its detector
is not part of this library: it reads single-entry/single-exit control
regions and data-flow boundary, effect and capture facts that the
retained projection model does not carry.
