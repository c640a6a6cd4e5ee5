# linkerd2_proxy

The decisions of a transparent HTTP proxy, written in Rust and verified with Verus.

- `src/` is the library. Every function in it has a contract that Verus proves: how requests
  are recognized, normalized, routed, retried, classified, counted and tapped, how endpoints
  are discovered and connected to, and how the builders of all these services compose.
  Properties that span several functions are stated as public proof functions next to them.
- `app/` runs the library on futures, tower services and the messages of the `http` crate.
- `tests/` exercises the library from outside.

Modules of `src/`:

| module | what it decides |
| --- | --- |
| `stack`, `svc` | how services are built, wrapped, rebuilt and shared |
| `message`, `text`, `addr`, `tls`, `ctx`, `source` | what requests, responses and connections are |
| `proxy` | servers, routers, profiles, retries, metrics, discovery, balancing, URI normalization |
| `app` | classification, profile conversion and the outbound proxy |
| `inbound`, `outbound`, `bind`, `endpoint`, `transport` | where requests go |
| `shared_discover`, `handles`, `sender` | one discovery for many observers |
| `tap` | streams of events about requests |
| `dns`, `pattern`, `labels`, `ports`, `ratio`, `time` | names, regular expressions and other values |

Calls into other crates (`http`, `regex`, `indexmap`, `webpki`) stand behind small functions
whose contracts are trusted: their doc comments say what is claimed of the function that they
call. So do two functions of the standard library, `VecDeque::swap_remove_back` and
`String::push`. Its `Instant` is carried through as it is.
