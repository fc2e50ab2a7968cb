//! What the board asks of the account it runs under.
//!
//! The board holds no keys and no money. Each call hands back the steps that
//! its caller is to take on the account, in order.

use vstd::prelude::*;

verus! {

/// The allowance of every access key the board asks for.
pub const ACCESS_KEY_ALLOWANCE: u128 = 250_000_000_000_000_000_000_000;

/// The one method that an access key may call.
#[derive(Clone, Copy, Debug, PartialEq, Eq, Structural)]
pub enum Method {
    SubmitSolution,
    ClaimReward,
}

/// One step to take on the account.
#[derive(Debug, PartialEq, Eq)]
pub enum Action {
    /// Add an access key for `public_key` that may call `method` only.
    AddAccessKey { public_key: Vec<u8>, allowance: u128, method: Method },
    /// Delete the access key for `public_key`.
    DeleteKey { public_key: Vec<u8> },
    /// Pay `amount` to the account `receiver`.
    Transfer { receiver: String, amount: u128 },
}

/// An [`Action`] with its key and account as sequences.
pub enum ActionView {
    AddAccessKey { public_key: Seq<u8>, allowance: u128, method: Method },
    DeleteKey { public_key: Seq<u8> },
    Transfer { receiver: Seq<char>, amount: u128 },
}

impl View for Action {
    type V = ActionView;

    open spec fn view(&self) -> ActionView {
        match self {
            Action::AddAccessKey { public_key, allowance, method } => ActionView::AddAccessKey {
                public_key: public_key@,
                allowance: *allowance,
                method: *method,
            },
            Action::DeleteKey { public_key } => ActionView::DeleteKey { public_key: public_key@ },
            Action::Transfer { receiver, amount } => ActionView::Transfer {
                receiver: receiver@,
                amount: *amount,
            },
        }
    }
}

/// The views of a list of steps, in the same order.
pub open spec fn actions_view(actions: Seq<Action>) -> Seq<ActionView> {
    actions.map_values(|a: Action| a@)
}

} // verus!
