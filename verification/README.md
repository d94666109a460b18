# feder

Portable ActivityPub federation logic, verified with Verus.

## Layout

- `src/` — the library, every item of it verified:
  - `vocab/` — Activity Streams vocabulary: IRIs, references, actors,
    objects and activities with their constructors.
  - `addressing.rs` — visibility derived from a `to`/`cc` audience and the
    audience computed for a visibility, with the round-trip law.
  - `inbound.rs` — the decision taken on an inbound `Follow`.
  - `federation.rs` — the core state machine (`FederCore`, `FederState`):
    followers, delivery targets, created notes and their activities, with
    its invariant and laws.
  - `signature.rs` — HTTP Signatures: signing strings, `Digest`,
    `Signature` header assembly and parsing, verification, with the laws
    that tie verification to signing.
  - `webfinger.rs` — the WebFinger request URL and the choice of the actor
    link in a response.
  - `text.rs` — the string operations the above rely on, with their
    specifications.
  - `runtime/` — the same signing and discovery items under the runtime
    module path.
- `tests/` — tests run against the compiled library.
- `app/` — unverified runtime code: the serde shapes of the vocabulary,
  HTTP calls for WebFinger lookups and signed delivery.

## Outside crates

Digests (`sha2`), Base64 (`base64`), URL parsing (`url`), IRI validation
(`iri-string`), RSA (`rsa`) and the clock (`chrono`) are called from the
library through small trusted wrappers whose contracts name what the crate
computes; everything around those calls is proved.
