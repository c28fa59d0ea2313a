# provenance_stamping

The verified core of a gateway policy that stamps a data product's provenance
and lineage onto every response as `x-dp-provenance-*` / `x-dp-lineage-*`
headers, derived from catalog (CDGC) search results. The policy is inbound,
headers-only and fail-open.

Layout:

- `src/` — the library, verified with Verus:
  - `text`, `order`, `json`, `headers`: strings by their character and UTF-8
    views, byte-wise text order, JSON values, and an ordered header map;
  - `claims`: base64url decoding and bearer-token claims;
  - `derive`: reading search hits (names, scalars, lineage neighbours,
    structural relationships, doubled catalog names);
  - `provenance`, `refresh`, `search`: the provenance and lineage headers,
    one refresh as a sequence of catalog searches, and the search bodies;
  - `policy`, `cache`, `config`, `cdgc`: call budgets, cache freshness and
    fail-open serving, the refresh-lock and cache-writer protocols, request
    gating and response stamping.
- `app/` — the gateway plumbing (PDK entrypoints, HTTP calls, data storage,
  JSON parsing), which performs the I/O and acts on the library's decisions.
- `tests/` — tests of the library.
