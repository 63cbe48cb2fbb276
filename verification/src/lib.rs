//! Payment-gated invoice engine for a wallet that has no invoice object of its
//! own: amounts, invoice records, their encoding in wallet attributes, the
//! settlement scanner and the polling driver that runs it.

pub mod checkpoint;
pub mod invoice;
pub mod laws;
pub mod listener;
pub mod piconero;
pub mod scanner;
pub mod text;

pub use invoice::{
    AddOpuzaInvoiceResponse, InvoicePlan, OpuzaInvoice, OpuzaRpcError, WalletReply,
};
pub use listener::{ListenerAction, ListenerEvent, ListenerState, PollPolicy, TransactionListener};
pub use piconero::{AmountError, Piconero};
pub use scanner::{Ledger, ScanReport, TransferCategory, TransferHeight, TransferRecord};
