//! iTunes-style metadata: `udta` → `meta` → `ilst`, plus the QuickTime
//! `udta` title atom and Nero chapter lists.

pub mod ilst;
pub mod udta;
