//! Edge-preserving bilateral denoising of RGB images in Q16.16 fixed-point
//! arithmetic.
//!
//! Samples are normalized channel values in `[0, ONE]` where `ONE == 65536`
//! stands for 1.0. The filter replaces each pixel by a weighted average of a
//! square window of neighbors; the weight of a neighbor is the product of a
//! precomputed spatial weight and a range weight that decays with the color
//! distance between the two pixels. Two range metrics are provided: plain
//! Euclidean distance in RGB space and an anisotropic quadratic form that
//! accounts for correlation between the color channels.

pub mod filter;
pub mod fixed;
pub mod kernel;
pub mod range;
pub mod samples;
