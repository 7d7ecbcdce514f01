//! What the wallet command handler asks its console to do next.

use vstd::prelude::*;

verus! {

/// The console-side effect of a handled wallet command.
#[derive(Clone, Debug, PartialEq, Eq)]
pub enum ConsoleCommand {
    Print(String),
    ClearScreen,
    PrintHistory,
    ClearHistory,
    Exit,
}

} // verus!
