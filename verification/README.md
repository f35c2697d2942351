# engine — a verified identity-evidence decision core

Given a business question ("is this user over 18?"), the engine resolves it to
a canonical predicate or policy, infers which evidence would establish it
(privacy-ranked, only what is still missing), issues a nonce-bound request,
verifies an SD-JWT VC presentation (ES256 issuer signature, disclosure
digests, expiry, key binding, nonce), derives evidence *states* from the
disclosed claims, and returns a deterministic `ALLOW` / `DENY` / `UNKNOWN` /
`REPLAY_DETECTED` decision with an audit record.

## Layout

- `src/` — the library, written in Verus and verified:
  - `domain`, `config` — core types and the knowledge base.
  - `resolution` — question normalization, registry lookup, proposal validation.
  - `inference` — required predicates, privacy ranking, evidence request plans.
  - `policy` — predicate and policy evaluation, with its laws (DENY only on
    refuting evidence, ALLOW iff every required predicate holds, determinism).
  - `evidence` — the mock and SD-JWT verifiers and claim derivation.
  - `issuer`, `crypto`, `json`, `clock` — issuance and the calls into `p256`,
    `sha2`, `base64`, `serde_json`, `time` and `rand`, each behind a small
    trusted wrapper whose contract is stated in its doc comment.
  - `replay`, `audit`, `engine` — single-use nonces, audit records, and the
    decisions behind each request.
  - `pipeline` — the end-to-end law: what the issuer issues, presented with any
    selection of disclosures and a holder-signed key-binding JWT, verifies.
  - `text`, `strmap` — verified string helpers and a string-keyed map.
- `tests/` — tests on concrete values.
- `app/` — the HTTP service (axum): request parsing, JSON shapes, clocks,
  identifiers and the YAML knowledge base files.

The service reads `questions.yaml`, `predicates.yaml` and `policies.yaml` from
`CONFIG_DIR` (default `config`) and listens on `PORT` (default 8081).
