//! Transaction execution for an account-based ledger: the state transition of
//! one transaction, with its gas accounting, nested calls and traces.

pub mod action_params;
pub mod blocks;
pub mod bytes;
pub mod codegen;
pub mod engine;
pub mod env_info;
pub mod error;
pub mod evm;
pub mod executed;
pub mod executive;
pub mod externalities;
pub mod gas;
pub mod hash;
pub mod miner;
pub mod network_error;
pub mod outcome;
pub mod rlp_codec;
pub mod rpc;
pub mod schedule;
pub mod state;
pub mod substate;
pub mod table;
pub mod text;
pub mod trace;
pub mod transaction;
pub mod uint;
