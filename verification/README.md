# sim_engine

The state layer of a grand-strategy simulation, written in Verus: every
function in `src/` carries a contract that Verus proves.

## Layout

- `src/international/` — sanctions and their registry, multi-party
  treaties and their lifecycle, international organizations (membership,
  councils, integration and voting) and their registry, diplomatic posts and
  the fog-of-war intelligence levels they earn, the turn of a bilateral
  relation and its spies, the actions of AI doctrines.
- `src/military/` — units and their equipment tables, the order of battle
  (generation, queries, cleanup, conscript enrolment, tanks replaced by
  infantry), fleets and their missions, fronts and battles across
  domains, war declarations, war lists, tension keys and peace terms,
  conscription drains, casualties, production decrees and military
  conversions, prisoners of war, retreat decisions.
- `src/io/` — telemetry file names and reading a telemetry column back
  from CSV, the calendar kept in a save's `storage.json`, the disk entity
  store's root and the in-memory entity store.
- `src/text.rs` — string helpers: decimal rendering and parsing, zero padding,
  ASCII case folding, name lists.
- `app/` — ordinary Rust around the library: floating-point rules
  (tension, retreat power ratios, attrition rates, lease fees, army sizing,
  draft fractions, trade thresholds, casualty shares), random draws, file
  reading and writing, serializable copies of library types.
- `tests/` — tests of the library's behaviour on concrete values.

Properties that relate several operations (a declared war is mutual, peace
ends it both ways, lifting a decree undoes it, cleanup keeps exactly the
living units, enrolling a conscript adds exactly one unit, conscription
conserves population, …) are stated as
`law_*` proof functions next to the code they speak of.
