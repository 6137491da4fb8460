//! Encoding and decoding of G.711 call audio, by `rtp-engine`.

use vstd::prelude::*;

use crate::types::AudioCodec;

verus! {

/// The codecs that `rtp-engine` has without its `opus` feature.
#[verifier::external_type_specification]
pub struct ExCodecType(rtp_engine::CodecType);

/// What `rtp-engine` encodes samples to.
pub uninterp spec fn encoded_audio(codec: rtp_engine::CodecType, samples: Seq<i16>) -> Seq<u8>;

/// What `rtp-engine` decodes bytes to.
pub uninterp spec fn decoded_audio(codec: rtp_engine::CodecType, bytes: Seq<u8>) -> Seq<i16>;

/// Makes an encoder by `rtp_engine::codec::create_encoder` and has it encode
/// `samples`. There is an encoder for each codec. The codecs are G.711, whose
/// encoders keep no state and write one byte for each sample. Which byte that
/// is, is left to G.711.
#[verifier::external_body]
fn encode(codec: rtp_engine::CodecType, samples: &[i16]) -> (r: Option<Vec<u8>>)
    ensures
        r is Some,
        r->0@ == encoded_audio(codec, samples@),
        r->0@.len() == samples@.len(),
{
    let mut bytes = Vec::new();
    match rtp_engine::codec::create_encoder(codec) {
        Ok(mut encoder) => {
            encoder.encode(samples, &mut bytes);
            Some(bytes)
        },
        Err(_) => None,
    }
}

/// Makes a decoder by `rtp_engine::codec::create_decoder` and has it decode
/// `bytes`. There is a decoder for each codec. The codecs are G.711, whose
/// decoders keep no state and give one sample for each byte. Which sample that
/// is, is left to G.711.
#[verifier::external_body]
fn decode(codec: rtp_engine::CodecType, bytes: &[u8]) -> (r: Option<Vec<i16>>)
    ensures
        r is Some,
        r->0@ == decoded_audio(codec, bytes@),
        r->0@.len() == bytes@.len(),
{
    let mut samples = Vec::new();
    match rtp_engine::codec::create_decoder(codec) {
        Ok(mut decoder) => {
            decoder.decode(bytes, &mut samples);
            Some(samples)
        },
        Err(_) => None,
    }
}

/// A codec as an RTP engine knows it.
#[derive(Debug, Clone, Copy, PartialEq, Eq, Structural)]
pub enum RtpCodec {
    Pcmu,
    Pcma,
    Opus,
    G729,
}

/// The RTP engine's codec for `codec`.
pub open spec fn rtp_codec(codec: AudioCodec) -> RtpCodec {
    match codec {
        AudioCodec::Pcmu => RtpCodec::Pcmu,
        AudioCodec::Pcma => RtpCodec::Pcma,
        AudioCodec::Opus => RtpCodec::Opus,
        AudioCodec::G729 => RtpCodec::G729,
    }
}

/// The codec of `rtp-engine` for a G.711 codec. The other codecs are the
/// host's: `rtp-engine` has no G.729, and it has Opus only with its `opus`
/// feature, which is off here because the native library behind it (libopus,
/// by `audiopus_sys`) does not build along with this crate.
pub open spec fn g711(codec: AudioCodec) -> Option<rtp_engine::CodecType> {
    match codec {
        AudioCodec::Pcmu => Some(rtp_engine::CodecType::Pcmu),
        AudioCodec::Pcma => Some(rtp_engine::CodecType::Pcma),
        AudioCodec::Opus | AudioCodec::G729 => None,
    }
}

impl AudioCodec {
    /// The RTP engine's codec for this one.
    pub fn to_rtp_codec(self) -> (r: RtpCodec)
        ensures
            r == rtp_codec(self),
    {
        match self {
            AudioCodec::Pcmu => RtpCodec::Pcmu,
            AudioCodec::Pcma => RtpCodec::Pcma,
            AudioCodec::Opus => RtpCodec::Opus,
            AudioCodec::G729 => RtpCodec::G729,
        }
    }

    /// Encodes samples in G.711; `None` if this is another codec.
    pub fn encode_g711(self, samples: &[i16]) -> (r: Option<Vec<u8>>)
        ensures
            match g711(self) {
                Some(codec) => r is Some && r->0@ == encoded_audio(codec, samples@) && r->0@.len()
                    == samples@.len(),
                None => r is None,
            },
    {
        match self {
            AudioCodec::Pcmu => encode(rtp_engine::CodecType::Pcmu, samples),
            AudioCodec::Pcma => encode(rtp_engine::CodecType::Pcma, samples),
            AudioCodec::Opus | AudioCodec::G729 => None,
        }
    }

    /// Decodes G.711 bytes; `None` if this is another codec.
    pub fn decode_g711(self, bytes: &[u8]) -> (r: Option<Vec<i16>>)
        ensures
            match g711(self) {
                Some(codec) => r is Some && r->0@ == decoded_audio(codec, bytes@) && r->0@.len()
                    == bytes@.len(),
                None => r is None,
            },
    {
        match self {
            AudioCodec::Pcmu => decode(rtp_engine::CodecType::Pcmu, bytes),
            AudioCodec::Pcma => decode(rtp_engine::CodecType::Pcma, bytes),
            AudioCodec::Opus | AudioCodec::G729 => None,
        }
    }
}

/// Each codec is the RTP engine's codec of the same name, and the two codecs of
/// G.711 are the ones that are encoded and decoded here.
pub proof fn codecs_keep_their_names(codec: AudioCodec)
    ensures
        rtp_codec(codec) == RtpCodec::Pcmu <==> codec == AudioCodec::Pcmu,
        rtp_codec(codec) == RtpCodec::Pcma <==> codec == AudioCodec::Pcma,
        rtp_codec(codec) == RtpCodec::Opus <==> codec == AudioCodec::Opus,
        rtp_codec(codec) == RtpCodec::G729 <==> codec == AudioCodec::G729,
        g711(codec) == Some(rtp_engine::CodecType::Pcmu) <==> codec == AudioCodec::Pcmu,
        g711(codec) == Some(rtp_engine::CodecType::Pcma) <==> codec == AudioCodec::Pcma,
        g711(codec) is None <==> codec == AudioCodec::Opus || codec == AudioCodec::G729,
{
}

} // verus!
