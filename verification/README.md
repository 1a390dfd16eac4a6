# dns_adblock

A self-hosted DNS filtering server (plain DNS, DNS over TLS, DNS over HTTPS)
with a local dashboard, whose decisions are written in Verus and proved
against their contracts.

## Layout

- `src/` — the verified library.
  - `dns.rs`: the parts of a hickory-proto message the server reads and writes.
  - `process.rs`: the request path — decoding, rewrites, the blocking verdict,
    the answer cache, upstream answers and failures, the final response.
  - `rewrite.rs`, `response.rs`: rewrites, sinkhole responses, restored questions.
  - `blocking.rs`: the adblock engine built from the enabled lists, and the verdict per request.
  - `cache.rs`: the answer cache and the encoded-response cache.
  - `rules.rs`, `config.rs`, `lists.rs`: custom rules, configuration and settings,
    the list catalogue, the download record and list switching.
  - `auth.rs`, `devices.rs`, `events.rs`, `stats.rs`: sessions and passwords,
    devices, the query log and the dashboard's statistics.
  - `network.rs`, `frontend.rs`, `watch.rs`, `cli.rs`: adapter DNS settings,
    firewall filters, DoT/DoH framing, static files, file events, commands.
  - `text.rs`: verified string helpers.
- `tests/` — tests of the library on concrete values.
- `app/` — the daemon and the management commands: sockets, HTTP, SQLite,
  downloads, file watching. It hands plain values to the library and
  performs what the library decides.
