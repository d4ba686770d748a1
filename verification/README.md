# geo_scalars

Geographic scalar functions of a query engine, verified with Verus: distances on the
earth from lookup tables, H3 cells, geohashes, and whether a point lies in ellipses or
in a polygon.

- `src/` is the verified library. The number type of the formulas is left open
  (`numeric`), so that every contract says which operations are carried out, in which
  order and on what, and holds for number types that round.
- `tests/` runs the library on numbers of single and double precision and with the
  outside crates.
- `app/` fixes the number types and makes the calls on floating-point numbers.
