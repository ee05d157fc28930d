//! A fungible-token core with two verified capabilities beyond plain
//! bookkeeping: signature-authorized approvals (permits) and historical,
//! snapshot-queryable voting power derived from balances (checkpoints).

pub mod account;
pub mod assoc;
pub mod checkpoints;
pub mod eip712;
pub mod errors;
pub mod guard;
pub mod livr;
pub mod nonces;
pub mod owner;
pub mod permit;
pub mod votes;
