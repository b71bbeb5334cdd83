# bmkg_edge

BMKG's Indonesian open data (earthquakes, forecasts, severe-weather warnings and the region-code
tree) as one typed JSON API and an MCP endpoint, for one Cloudflare Worker.

`src/` is the library. It decides everything that can be decided from plain values: which route
or tool a request means, what to ask of which upstream, what an upstream answer says, and what is
sent back. Every function in it carries a contract that Verus proves, and each module ends with
the laws that hold of it as a whole.

| module | what it holds |
|---|---|
| `api` | response envelope, error taxonomy, what becomes of an upstream answer |
| `router`, `task` | routes, query parameters, health replies; what a request asks for |
| `mcp` | JSON-RPC messages, tool definitions and tool calls |
| `parity` | why a tool call and the route for the same question agree |
| `earthquake` | the three quake feeds, and quakes around a point |
| `weather`, `timeutil` | forecasts, the slot covering now, timestamps |
| `nowcast`, `xml` | the warning index (RSS) and warning details (CAP) |
| `wilayah` | region codes, names, queries and paths |
| `json`, `number`, `text` | JSON values, numbers kept as text, text operations |
| `openapi`, `landing` | the two documents that are served as they are |

What is not proved is marked `external_body` or `assume_specification`, each with a comment that
says what is taken on trust: `quick-xml`'s reader in `xml`, and three text operations of the
standard library in `text`.

`app/` is the Worker around the library: it fetches, queries D1, measures distances in floating
point, and sends.

`tests/` runs the library on concrete values.
