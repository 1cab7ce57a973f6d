//! Verified core of the Aperture gateway: the DiceBear-compatible avatar
//! PRNG and SVG serializer, the task system's bookkeeping, and the
//! gateway's listener, redirect, certificate and logging decisions.

pub mod dicebear;
pub mod gateway;
pub mod tasks;
pub mod text;
