// Approval management for the tokens of a contract: owners grant accounts the right to act
// on a token, query that right, and have the approved account's contract notified through
// an outbound call whose result becomes the result of the grant.
//
// Modules, leaves first: `str_map` (a string-keyed map), `approvals` (one token's approvals
// and its id counter), `store` (the approvals of every token), `manager` (ownership, limits
// and the operations), `notifier` (the outbound call and its callback), `error`, and `laws`
// (what holds over sequences of operations).

pub mod approvals;
pub mod error;
pub mod laws;
pub mod manager;
pub mod notifier;
pub mod store;
pub mod str_map;
