# aria_mobile_core

Core of a mobile softphone, verified with Verus.

The library holds what the core decides; the host does the I/O. The host asks
the library what to do (which request to send, which packet, which event to
report), does it, and hands the outcome back.

| Module | Content |
|--------|---------|
| `engine` | tokens, registration, calls, remote hangup, on-device AI |
| `calls` | the active calls; what the app is told agrees with what the media does |
| `gateway_client` | URLs, requests and response bodies of the push gateway |
| `exchange` | one request with failover over the resolved targets |
| `dns` | SRV records, their order, and the cache of answers |
| `sdp` | offers, answers, and what is read from them |
| `media` | one call's RTP media: receiving, sending, DTMF |
| `packet`, `audio` | RTP headers and G.711, by `rtp-engine`; Opus and G.729 frames are handed to the host |
| `ai` | models, downloads, captures and insights |
| `host` | the host of a URL, and IPv4 addresses in text |
| `table`, `text`, `types` | a map keyed by text, text operations, shared types |
| `engine_laws`, `gateway_laws`, `sdp_laws` | laws that relate several functions |

`app/` is the host side: sockets, threads, HTTP, DNS, and the callbacks of the
platform. `tests/` holds the tests of the library.
