//! A read-copy-update cell: readers take snapshots of a shared value
//! without invalidating one another, while writers install replacement
//! values that supersede, but never destroy, snapshots still in use.
//! Every payload is reference counted and destroyed exactly once, by
//! whichever release observes its share count reach zero. Shares move
//! explicitly: a snapshot guard is given back with [`RcuCell::release`],
//! and a cell relinquishes its own share with [`RcuCell::close`], so each
//! transition of a share count is a contracted operation.

mod cell;
mod inner;

pub use cell::RcuCell;
pub use cell::RcuReader;
