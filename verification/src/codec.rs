//! Canonical encoding and decoding of the signer's messages.
//!
//! Signers exchange protobuf messages serialized canonically: fields are
//! written in the order of their tags, and fields holding their default
//! value are not written. A type is encoded by converting it into its
//! protobuf message and encoding the message; it is decoded by decoding the
//! message and converting it back.

use vstd::prelude::*;

use crate::convert::{
    lemma_public_key_round_trip, spec_public_key_bytes_from_proto, spec_public_key_to_proto,
};
use crate::error::SignerError;
use crate::keys::PublicKey;
use crate::proto;
use crate::wire::{
    decode_public_key, encode_public_key, lemma_public_key_encoding_round_trip,
    spec_decode_public_key, spec_encode_public_key,
};

verus! {

/// The error of reading a byte stream.
#[verifier::external_type_specification]
#[verifier::external_body]
pub struct ExIoError(std::io::Error);

/// Ties a type to its protobuf message.
pub trait ProtoSerializable {
    /// The protobuf message of the type.
    type Message;

    /// A message type tag used for hashing the message before signing.
    fn type_tag(&self) -> &'static str;
}

/// Encodes a value into bytes in the canonical serialization format.
pub trait Encode: Sized {
    /// Encodes the value into a vector of bytes.
    fn encode_to_vec(self) -> Vec<u8>;
}

/// Decodes a value from bytes in the canonical serialization format.
pub trait Decode: Sized {
    /// Decodes a value from the given bytes.
    fn decode(bytes: &[u8]) -> Result<Self, SignerError>;
}

/// The errors of encoding and decoding.
#[derive(Debug)]
pub enum CodecError {
    /// The bytes are not a well-formed encoding of the message.
    DecodeError,
    /// The bytes could not be read.
    DecodeIOError(std::io::Error),
}

impl ProtoSerializable for PublicKey {
    type Message = proto::PublicKey;

    /// The tag of public key messages, `SBTC_PUBLIC_KEY`.
    fn type_tag(&self) -> (r: &'static str)
        ensures
            r@ == "SBTC_PUBLIC_KEY"@,
    {
        "SBTC_PUBLIC_KEY"
    }
}

impl Encode for PublicKey {
    /// The canonical encoding of the key's protobuf message.
    fn encode_to_vec(self) -> (r: Vec<u8>)
        ensures
            r@ == spec_encode_public_key(spec_public_key_to_proto(self)),
    {
        encode_public_key(&proto::PublicKey::from(self))
    }
}

impl Decode for PublicKey {
    /// Bytes that are not a well-formed message give a `DecodeError`; a
    /// well-formed message is converted into a key as
    /// `PublicKey::try_from` does.
    fn decode(bytes: &[u8]) -> (r: Result<Self, SignerError>)
        ensures
            match spec_decode_public_key(bytes@) {
                None => r == Err::<PublicKey, SignerError>(SignerError::Codec(CodecError::DecodeError)),
                Some(message) => {
                    &&& r is Ok <==> spec_public_key_bytes_from_proto(message) is Some
                    &&& r matches Ok(key) ==> spec_public_key_bytes_from_proto(message) == Some(key.spec_bytes())
                    &&& r matches Err(err) ==> (if message.x_only_public_key is None {
                        err == SignerError::TypeConversion
                    } else {
                        err is InvalidPublicKey
                    })
                },
            },
    {
        match decode_public_key(bytes) {
            None => Err(SignerError::Codec(CodecError::DecodeError)),
            Some(message) => PublicKey::try_from(message),
        }
    }
}

/// Decoding the encoding of a public key gives back the same key.
pub proof fn lemma_public_key_codec_round_trip(key: PublicKey)
    requires
        key.wf(),
    ensures
        spec_decode_public_key(spec_encode_public_key(spec_public_key_to_proto(key))) == Some(
            spec_public_key_to_proto(key),
        ),
        spec_public_key_bytes_from_proto(spec_public_key_to_proto(key)) == Some(key.spec_bytes()),
{
    lemma_public_key_encoding_round_trip(spec_public_key_to_proto(key));
    lemma_public_key_round_trip(key);
}

} // verus!
