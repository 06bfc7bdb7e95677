pub mod derive;
pub mod errors;
pub mod handlers;
pub mod kvseq;
pub mod laws;
pub mod ledger;
pub mod pubkey;
pub mod seed;
pub mod store;
pub mod world;
