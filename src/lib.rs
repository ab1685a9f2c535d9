//! Square framing of images: a non-square picture is placed, centred and
//! unscaled, on a blurred and cropped copy of itself that fills a square.
//!
//! The stages, leaves first: `geometry` plans sizes and offsets, `resample`
//! scales the source, `crop` cuts the centred square, `blur` smooths it and
//! `composite` lays the source over it; `pipeline` runs them in order.
//! `confirm` and `output` hold the decisions around writing the result.

pub mod blur;
pub mod composite;
pub mod confirm;
pub mod crop;
pub mod geometry;
pub mod output;
pub mod pipeline;
pub mod raster;
pub mod resample;
