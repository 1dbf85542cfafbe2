# SendSure (verified library)

SendSure compares what a user intends to send, swap, approve or sign with a proposed
transaction and answers `READY`, `REVIEW` or `STOP`. The rule engine, the registries, the
request reading and routing decisions are written in Verus and proved against their
contracts; the program around them (terminal demo, TCP server, JSON) lives in `app/`.

Layout of `src/`:

- `decision.rs`, `intent.rs`, `evaluation.rs`: the data model and its views.
- `registries.rs`: networks, tokens, exchanges, deposit profiles, contracts; the default data.
- `text.rs`: trimming, ASCII case folding, substring search over `char` sequences.
- `validators/`: network-name resolution, address and tag matching, uint256-maximum
  recognition (decimal and hexadecimal), slippage thresholds on the binary64 encoding.
- `rules/`: the five rule groups and the catalogue of rules (`RuleKind`).
- `engine.rs`: `evaluate` and STOP > REVIEW > READY precedence; `laws.rs`: its properties.
- `scenarios.rs`: the seven demonstration scenarios.
- `http.rs`: the request reader (head, `Content-Length`, body); `server.rs`: routing and
  connection-error handling.

The swap slippage is carried as the bit pattern of the `f64` percentage (`f64::to_bits`);
the thresholds are decided exactly on the encoded value.
