# ongrok

The control plane of a self-hosted reverse relay, written in Rust and verified
with Verus. A relay server with a public address publishes services that run on
machines behind it; relay clients connect to it over QUIC, or over TCP, TLS and
Yamux where UDP is not available.

`src/` is the library. It decides; it touches no socket, no file and no clock.

| module | what it decides |
| --- | --- |
| `codec`, `frame` | how control messages are framed |
| `metadata`, `ids`, `model` | which records there are and which are valid |
| `token`, `state` | who is admitted, and which sessions and nodes there are |
| `relay` | the service directory: names, port leases, routing |
| `session`, `stream` | the server's end of a control session, and data streams |
| `headers`, `ingress` | which service an HTTP request is for, and what is passed on |
| `api` | the control API |
| `config`, `tls` | settings, and certificates and keys out of PEM files |
| `store` | the keys and the retention of stored records |
| `identity`, `client` | the client's identity, its end of a session, and retries |
| `text`, `table` | texts and tables, on which the others build |

Contracts speak of mathematical models: each type with texts or collections has
a view, and what a function does is stated over the views. Functions whose names
begin with `law_` state what holds of several operations together: that the
directory stays in order whatever a client sends, that a replaced token is
refused at once and its sessions are cut off, that frames are read back as they
were written in whatever pieces they arrive.

What the library takes from other crates (digests, identifiers, random numbers,
byte buffers, header maps, PEM files, URIs, keys) stands behind small functions whose
documentation says what is believed of them.

`app/` is the program around the library: the server, or, called under a name
with `client` in it, the client. `tests/` holds the library's tests.
