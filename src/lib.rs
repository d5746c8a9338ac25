//! A small proof-of-work block chain: blocks that hash their own content,
//! a nonce search that meets a difficulty target, and an append-only chain.

pub mod block;
pub mod chain;
pub mod encode;
