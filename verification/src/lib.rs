//! Asset movement between a cross-consensus message executor and a set of
//! multi-currency ledgers.
//!
//! * [`types`]: assets, errors and the declared types of the message format.
//! * [`error`]: the adapter's own failures and the text of a ledger's failure.
//! * [`holding`]: the executor's holding register.
//! * [`eager_credit`]: receipts for balances that have already been moved.
//! * [`services`]: what a runtime plugs in, and the record of calls made to it.
//! * [`deposit_fail`]: what happens to a deposit that a ledger refuses.
//! * [`currency_adapter`]: depositing, withdrawing, minting and transferring.
//! * [`teleport_currency_adapter`]: the same, with the check-in hooks enabled.
//! * [`laws`]: what holds of the adapter as a whole.
//! * [`history_laws`]: what holds of the services after the adapter's work.
//! * [`adapter_laws`], [`teleport_laws`]: what each operation of the two adapters
//!   does, told by what the services were asked and by what came out.
//! * [`receipt_laws`], [`failure_laws`]: the same of receipts, and of errors and
//!   failure handlers.
pub mod adapter_laws;
pub mod currency_adapter;
pub mod deposit_fail;
pub mod eager_credit;
pub mod error;
pub mod failure_laws;
pub mod history_laws;
pub mod holding;
pub mod laws;
pub mod receipt_laws;
pub mod services;
pub mod teleport_currency_adapter;
pub mod teleport_laws;
pub mod types;
