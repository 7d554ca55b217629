# jarsigner

Signing and inspection of JAR files, verified with Verus.

* `src/` is the verified library:
  * `signing.rs` — `sign_bytes`, `sign_bytes_with_cert_chain`: file digests,
    manifest and signature file, RSA signature block, and the signed archive;
  * `inspect.rs` — `is_signed`, `extract_signature_bytes`, `verify`,
    `check_signature`, `extract_public_key`;
  * `keys.rs` — `generate_key_pair`, `generate_signing_credentials`;
  * `manifest.rs` — the text of `MANIFEST.MF` and of the `.SF` file;
  * `names.rs`, `text.rs` — classification of entry names;
  * `archive.rs`, `crypto.rs` — the trusted boundary to the `zip`, `rsa`,
    `sha2` and `base64` crates: every function there marked
    `#[verifier::external_body]` is believed, not proved;
  * `laws.rs` — properties relating the operations (a signed JAR is reported
    signed, has signature bytes, verifies under the matching public key, keeps
    every file outside `META-INF/`, ...).
* `tests/` runs the library on real archives and keys.
* `app/` is the command-line tool (`generate`, `sign`, `verify`, `delete`),
  which keeps keys under `~/.jarsigned/` and passcodes in the OS keyring.
