//! What the Azure adapters decide and compute: who an Entra ID token belongs
//! to, and what an event looks like to Azure Monitor.

pub mod identity;
pub mod monitor;
