//! Request admission for a faucet: cost-ordered checkers run over a neutral
//! view of each request, backed by refreshable membership lists.

pub mod checker;
pub mod checker_data;
pub mod list_manager;
pub mod pipeline;
pub mod rejection;
