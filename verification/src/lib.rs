//! Verified logic of the Nitro Enclaves workshop programs: the enclave's
//! decryption service, the S3 address-range service, the attestation client,
//! the vsock traffic forwarder and the hello-world enclave.

pub mod text;
pub mod base64_codec;
pub mod decimal;
pub mod enclave;
pub mod json;
pub mod ip_ranges;
pub mod client;
pub mod forwarder;
pub mod hello;
pub mod laws;
