# enclave_workshop

The logic of the AWS Nitro Enclaves workshop programs, written in Verus and
proved against its contracts.

- `src/` is the verified library:
  - `text`: white-space trimming, field splitting, character suffixes;
  - `decimal`: decimal rendering of integers;
  - `base64_codec`: the standard base64 engine;
  - `json`: the JSON document model the client reads, and the encoding of a
    list of strings;
  - `enclave`: the enclave's decryption service (kmstool arguments, reading
    its output, the answers it sends);
  - `ip_ranges`: the secure-local-channel service (S3 address ranges of a
    region);
  - `client`: the attestation client (metadata service, values file, KMS
    ciphertext, enclave CID);
  - `forwarder`: the TCP-to-vsock copying loop as a state machine;
  - `hello`: the hello-world enclave's greeting;
  - `laws`: properties that span several functions.
- `app/` holds the programs themselves: argument parsing, sockets, HTTP,
  KMS, processes and files, around the library.
- `tests/` exercises the library on concrete values.
