//! Verified logic of a set of small PolkaVM guest services: an image
//! container, an ASCII-art renderer, a hex formatter, an authorizer that
//! copies a work-package hash into the authorization queue, the decision
//! logic of a parent service that drives a child VM, and the step of a
//! child VM that fills a Fibonacci table page by page.

pub mod image;
pub mod ascii;
pub mod hex;
pub mod authorizer;
pub mod child;
pub mod parent;
