# ccn

A bridge that makes an assistant's tool calls execute inside a microVM, or not at
all. The host's built-in tools are denied, and each effect has a mediated tool
that is forwarded into a nucleus pod, where the permission lattice decides.

The library under `src/` is verified with Verus:

| Module | What it is |
|---|---|
| `mediation` | the map from built-in tools to mediated tools and routes |
| `hook` | what the hook decides about a call |
| `server` | the tools that are served, and the messages about them |
| `translate` | from a tool's arguments to the body of its route |
| `transport` | the choice of a transport, requests and replies |
| `discover` | finding a pod through the node's command-line tool |
| `check` | walking the whole mediated path |
| `journal` | what the bridge saw, as lines of a file |
| `statusline` | the status rows, from what the bridge saw |
| `json` | JSON values, read and written by `serde_json` |
| `text` | texts as sequences of characters |

The program under `app/` does the input and output around it. Where neither
`NUCLEUS_POD_SOCK` nor `NUCLEUS_PROXY_URL` says where the pod is, it asks the node
for a running pod by name, and for a new one where there is none. The name is that
in `NUCLEUS_POD_NAME`, or else the one in `CCN_POD_NAME` when the program was built.
