# canon_agent

The capability layer of an agent runtime, written in Verus: the records each
capability (planning, execution, observation, memory, policy, evaluation,
judgment, learning, orchestration, LLM adapters) submits to the kernel as
evidence, their hashes and line formats, and the decisions taken on them.

- `src/` is the verified library. Every function states its result in
  `ensures` over spec functions and views; the public `lemma_*` proof
  functions state the properties that span several calls (format round
  trips, budget bounds of batch selection, ordering of submissions,
  order independence of the memory index, ingest contracts).
- `tests/` runs the library on concrete values.
- `app/` is the unverified edge: files, sockets, child processes, YAML and
  JSON documents. It hands the library plain values and acts on what the
  library decides.
