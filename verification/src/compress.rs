//! Image compression to WebP: its errors, the size limit on the input, the
//! decision to shrink an image, and the check of the encoder's output.
//! Decoding, scaling and encoding themselves belong to the image codecs.

use vstd::prelude::*;
use crate::text::{decimal, push_decimal, push_str};

verus! {

/// Errors of the compressor.
#[derive(Debug)]
pub enum CompressError {
    DecodeError(String),
    EncodeError(String),
    ResizeError(String),
    TaskPanic { reason: String },
    PayloadTooLarge(String),
}

/// The prefix of the message of each kind of [`CompressError`].
pub open spec fn compress_error_prefix(e: CompressError) -> Seq<char> {
    match e {
        CompressError::DecodeError(_) => "图片解码失败: "@,
        CompressError::EncodeError(_) => "WebP 编码失败: "@,
        CompressError::ResizeError(_) => "图片缩放失败: "@,
        CompressError::TaskPanic { .. } => "Blocking task panicked: "@,
        CompressError::PayloadTooLarge(_) => "输入数据过大: "@,
    }
}

/// The text a [`CompressError`] carries.
pub open spec fn compress_error_detail(e: CompressError) -> Seq<char> {
    match e {
        CompressError::DecodeError(m) => m@,
        CompressError::EncodeError(m) => m@,
        CompressError::ResizeError(m) => m@,
        CompressError::TaskPanic { reason } => reason@,
        CompressError::PayloadTooLarge(m) => m@,
    }
}

impl CompressError {
    /// The human-readable message: the kind's prefix, then the carried text.
    pub fn message(&self) -> (r: String)
        ensures
            r@ == compress_error_prefix(*self) + compress_error_detail(*self),
    {
        let mut r = String::new();
        let detail: &String = match self {
            CompressError::DecodeError(m) => { push_str(&mut r, "图片解码失败: "); m },
            CompressError::EncodeError(m) => { push_str(&mut r, "WebP 编码失败: "); m },
            CompressError::ResizeError(m) => { push_str(&mut r, "图片缩放失败: "); m },
            CompressError::TaskPanic { reason } => { push_str(&mut r, "Blocking task panicked: "); reason },
            CompressError::PayloadTooLarge(m) => { push_str(&mut r, "输入数据过大: "); m },
        };
        push_str(&mut r, detail.as_str());
        r
    }
}

/// The default limit on the size of an input image: 20 MiB.
pub const DEFAULT_MAX_INPUT_BYTES: usize = 20971520;

/// The text of the error for an input of `len` bytes over the limit `max`.
pub open spec fn too_large_text(len: nat, max: nat) -> Seq<char> {
    "Image size "@ + decimal(len) + " bytes exceeds the maximum allowed "@ + decimal(max) + " bytes"@
}

/// Refuses an input larger than `max_input_bytes`, before anything is
/// decoded.
pub fn check_input_size(len: usize, max_input_bytes: usize) -> (r: Result<(), CompressError>)
    ensures
        len <= max_input_bytes <==> r is Ok,
        r matches Err(e) ==> (e matches CompressError::PayloadTooLarge(m)
            && m@ == too_large_text(len as nat, max_input_bytes as nat)),
{
    if len > max_input_bytes {
        let mut m = String::new();
        push_str(&mut m, "Image size ");
        push_decimal(&mut m, len as u64);
        push_str(&mut m, " bytes exceeds the maximum allowed ");
        push_decimal(&mut m, max_input_bytes as u64);
        push_str(&mut m, " bytes");
        Err(CompressError::PayloadTooLarge(m))
    } else {
        Ok(())
    }
}

/// The box an image of `width` × `height` must be shrunk into, if any: with
/// no limit set nothing is shrunk; a missing limit takes the image's own
/// side; the image is shrunk only when a side exceeds its limit.
pub open spec fn shrink_box_of(width: u32, height: u32, max_width: Option<u32>, max_height: Option<u32>)
    -> Option<(u32, u32)>
{
    if max_width is None && max_height is None {
        None
    } else {
        let mw = match max_width { Some(m) => m, None => width };
        let mh = match max_height { Some(m) => m, None => height };
        if width > mw || height > mh { Some((mw, mh)) } else { None }
    }
}

/// Decides whether an image is shrunk before encoding, and into which box
/// (see [`shrink_box_of`]); the scaling keeps the aspect ratio.
pub fn shrink_box(width: u32, height: u32, max_width: Option<u32>, max_height: Option<u32>)
    -> (r: Option<(u32, u32)>)
    ensures
        r == shrink_box_of(width, height, max_width, max_height),
{
    if max_width.is_none() && max_height.is_none() {
        return None;
    }
    let mw = match max_width { Some(m) => m, None => width };
    let mh = match max_height { Some(m) => m, None => height };
    if width > mw || height > mh { Some((mw, mh)) } else { None }
}

/// Accepts the encoder's output unless it is empty.
pub fn check_encoded(data: Vec<u8>) -> (r: Result<Vec<u8>, CompressError>)
    ensures
        data@.len() > 0 <==> r is Ok,
        r matches Ok(d) ==> d@ == data@,
        r matches Err(e) ==> (e matches CompressError::EncodeError(m) && m@ == "WebP 编码器返回空数据"@),
{
    if data.len() == 0 {
        Err(CompressError::EncodeError("WebP 编码器返回空数据".to_string()))
    } else {
        Ok(data)
    }
}

} // verus!
