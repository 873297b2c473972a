//! Zero-copy persistence of typed data graphs into append-only byte piles.

pub mod blob;
pub mod children;
pub mod encode;
pub mod height;
pub mod offset;
pub mod own;
pub mod pile;
pub mod pile_mut;
pub mod ptr;
