# llmcache

A cache in front of a generative model, backed by Valkey. The library in
`src/` holds the parts that are proved with Verus:

- `resp`: a plain model of RESP3 reply values, and their readings as text and
  as counts.
- `search`: decoding of vector-search (`FT.SEARCH`) replies into documents,
  with every structural error case stated, and the request and response
  texts met on the way listed in order. Decoding those texts as the model
  client's JSON types happens in `app/`, in that order.
- `embedding`: the stored form of an embedding (32-bit words, little-endian),
  with both round-trip laws.
- `commands`: the commands the cache sends (index creation and probe, storing
  a request, nearest-neighbour search) and the key a prompt is stored under.
- `fetch`: the exact and approximate fetch paths as machines from state and
  event to next state and action, with the laws that a repeated exact fetch
  answers as the first did and that a search finding a stored entry, in
  either document form, gives back what was stored.
- `adjudicate`: the prompt for adjudicating a dispute.

`app/` is the service around it: the HTTP server, the Valkey and model
clients, the embedding model, logging, and everything in floating point.
