//! Verified core of a stem-separation extension built on HTDemucs.
//!
//! The extension takes a track's audio, has the model separate it into stems,
//! and puts each stem on a track of its own. What it computes and decides
//! stands here; the host's services, floating-point arithmetic and the tensor
//! runtime stand outside.
pub mod reflect;

pub mod stft;

pub mod spectrogram;

pub mod chunks;

pub mod tensor;

pub mod cac;

pub mod text;

pub mod wav;

pub mod json;

pub mod panel;

pub mod host;

pub mod flows;

pub mod extension;

pub mod flow_laws;

pub mod work_laws;

pub mod wire;
