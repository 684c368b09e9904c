//! The node service: requests that reach it, and the decisions it takes
//! around the ledger (which record pays, what a transfer carries, what a
//! submitted block asks of the ledger and what is reported after it).

use vstd::prelude::*;
use crate::decimal::{decimal, decimal_string};
use crate::shares::SharesRequest;

verus! {

/// A request to the node service.
pub enum NodeRequest {
    /// A device submitted work: `(workername, apikey, count of transactions)`.
    NewBlock(String, String, u64),
}

/// Why the node could not build a transaction.
#[derive(Debug, PartialEq, Eq, Structural)]
pub enum NodeError {
    /// The account has no unspent record.
    NoRecords,
    /// The record to spend holds less than the fee.
    FeeExceedsBalance,
}

impl NodeError {
    /// The message the error carries.
    pub fn message(&self) -> (r: &'static str)
        ensures
            r@ == node_error_text(*self),
    {
        match self {
            NodeError::NoRecords => "The Aleo account has no records to spend.",
            NodeError::FeeExceedsBalance => "The additional fee exceeds the record balance.",
        }
    }
}

/// The message of each node error.
pub open spec fn node_error_text(e: NodeError) -> Seq<char> {
    match e {
        NodeError::NoRecords => "The Aleo account has no records to spend."@,
        NodeError::FeeExceedsBalance => "The additional fee exceeds the record balance."@,
    }
}

/// The amount each transfer of a new block moves.
pub const TRANSFER_AMOUNT: u64 = 1;

/// The inputs of a `credits.aleo/transfer` call: the record to spend (its
/// position among the unspent records), the receiver, and the amount, as
/// the ledger reads them.
pub struct TransferPlan {
    pub record_index: usize,
    pub program: String,
    pub function: String,
    pub receiver: String,
    pub amount: String,
}

/// A deployment paid from the record at `record_index` with `additional_fee`.
#[derive(Debug, PartialEq, Eq, Structural)]
pub struct DeployPlan {
    pub record_index: usize,
    pub additional_fee: u64,
}

/// The amount literal of `amount` microcredits: `<amount>u64`.
pub open spec fn amount_literal(amount: u64) -> Seq<char> {
    decimal(amount as nat) + "u64"@
}

/// What the node does next for a submitted block.
#[derive(Debug, PartialEq, Eq, Structural)]
pub enum NodeAction {
    /// Create a transfer of `TRANSFER_AMOUNT` and add it to the memory pool.
    Transfer,
    /// Propose the next block and add it to the ledger.
    AdvanceBlock,
    /// Nothing is left to do.
    Done,
}

/// The steps left for a block with `pending` transfers to make, of which
/// the block was advanced or not: the transfers, then the block.
pub open spec fn steps_left(pending: nat, advanced: bool) -> Seq<NodeAction>
    decreases pending,
{
    if pending > 0 {
        seq![NodeAction::Transfer] + steps_left((pending - 1) as nat, advanced)
    } else if !advanced {
        seq![NodeAction::AdvanceBlock]
    } else {
        Seq::<NodeAction>::empty()
    }
}

/// The work of one submitted block: the worker it is for, the transfers
/// still to make, and whether the block was advanced.
pub struct NodeJob {
    workername: String,
    apikey: String,
    transfers_left: u64,
    advanced: bool,
}

impl NodeJob {
    /// The worker the block is for: `(workername, apikey)`.
    pub closed spec fn worker(&self) -> (Seq<char>, Seq<char>) {
        (self.workername@, self.apikey@)
    }

    /// The transfers still to make.
    pub closed spec fn pending(&self) -> nat {
        self.transfers_left as nat
    }

    /// The block was advanced.
    pub closed spec fn is_advanced(&self) -> bool {
        self.advanced
    }

    /// The steps this job has left.
    pub open spec fn remaining_steps(&self) -> Seq<NodeAction> {
        steps_left(self.pending(), self.is_advanced())
    }

    /// The next step: every pending transfer first, then one block, then
    /// nothing.
    pub fn next_action(&mut self) -> (a: NodeAction)
        ensures
            final(self).worker() == old(self).worker(),
            old(self).pending() > 0 ==> a == NodeAction::Transfer && final(self).pending()
                == old(self).pending() - 1 && final(self).is_advanced() == old(self).is_advanced(),
            old(self).pending() == 0 && !old(self).is_advanced() ==> a == NodeAction::AdvanceBlock
                && final(self).pending() == 0 && final(self).is_advanced(),
            old(self).pending() == 0 && old(self).is_advanced() ==> a == NodeAction::Done
                && final(self).pending() == 0 && final(self).is_advanced(),
            old(self).remaining_steps().len() > 0 ==> a == old(self).remaining_steps()[0]
                && final(self).remaining_steps() == old(self).remaining_steps().drop_first(),
            old(self).remaining_steps().len() == 0 ==> a == NodeAction::Done
                && final(self).remaining_steps().len() == 0,
    {
        proof {
            reveal_with_fuel(steps_left, 2);
        }
        if self.transfers_left > 0 {
            self.transfers_left = self.transfers_left - 1;
            NodeAction::Transfer
        } else if !self.advanced {
            self.advanced = true;
            NodeAction::AdvanceBlock
        } else {
            NodeAction::Done
        }
    }

    /// The report to the shares service once the block at `height` with
    /// `hash` was advanced: that block's height, its hash, and the worker.
    pub fn block_advanced(self, height: u32, hash: String) -> (r: SharesRequest)
        ensures
            match r {
                SharesRequest::NewBlock(h, bh, w, k) => h == height && bh@ == hash@ && (w@, k@)
                    == self.worker(),
                _ => false,
            },
    {
        SharesRequest::NewBlock(height, hash, self.workername, self.apikey)
    }
}

/// The node's own plain values: the address that new blocks pay to.
#[derive(Clone)]
pub struct Node {
    pub address_to: String,
}

impl Node {
    /// A node that pays new blocks' transfers to `address_to`.
    pub fn new(address_to: String) -> (r: Node)
        ensures
            r.address_to@ == address_to@,
    {
        Node { address_to }
    }

    /// The work for `request`: as many transfers as it counts, then one block.
    pub fn update(&self, request: NodeRequest) -> (j: NodeJob)
        ensures
            match request {
                NodeRequest::NewBlock(w, k, c) => j.worker() == (w@, k@) && j.pending() == c && !j.is_advanced(),
            },
    {
        match request {
            NodeRequest::NewBlock(workername, apikey, count) => NodeJob {
                workername,
                apikey,
                transfers_left: count,
                advanced: false,
            },
        }
    }

    /// The transfer of `TRANSFER_AMOUNT` to this node's receiver that each
    /// step of a new block makes, spending from `record_balances`.
    pub fn block_transfer(&self, record_balances: &Vec<u64>) -> (r: Result<TransferPlan, NodeError>)
        ensures
            match r {
                Ok(p) => record_balances@.len() > 0 && p.record_index == record_balances@.len()
                    - 1 && p.program@ == "credits.aleo"@ && p.function@ == "transfer"@
                    && p.receiver@ == self.address_to@ && p.amount@ == amount_literal(
                    TRANSFER_AMOUNT,
                ),
                Err(e) => record_balances@.len() == 0 && e == NodeError::NoRecords,
            },
    {
        Node::create_transfer(record_balances, self.address_to.clone(), TRANSFER_AMOUNT)
    }

    /// The inputs of a transfer of `amount` to `to`, spending the last of
    /// the unspent records (whose balances are `record_balances`).
    pub fn create_transfer(record_balances: &Vec<u64>, to: String, amount: u64) -> (r: Result<
        TransferPlan,
        NodeError,
    >)
        ensures
            match r {
                Ok(p) => record_balances@.len() > 0 && p.record_index == record_balances@.len()
                    - 1 && p.program@ == "credits.aleo"@ && p.function@ == "transfer"@
                    && p.receiver@ == to@ && p.amount@ == amount_literal(amount),
                Err(e) => record_balances@.len() == 0 && e == NodeError::NoRecords,
            },
    {
        let n = record_balances.len();
        if n == 0 {
            return Err(NodeError::NoRecords);
        }
        let mut amount_text = decimal_string(amount);
        amount_text.append("u64");
        Ok(
            TransferPlan {
                record_index: n - 1,
                program: String::from_str("credits.aleo"),
                function: String::from_str("transfer"),
                receiver: to,
                amount: amount_text,
            },
        )
    }

    /// The payment of a deployment with `additional_fee`: the last of the
    /// unspent records, which must hold at least the fee.
    pub fn create_deploy(record_balances: &Vec<u64>, additional_fee: u64) -> (r: Result<
        DeployPlan,
        NodeError,
    >)
        ensures
            record_balances@.len() == 0 ==> r == Err::<DeployPlan, NodeError>(NodeError::NoRecords),
            record_balances@.len() > 0 && record_balances@.last() < additional_fee ==> r == Err::<
                DeployPlan,
                NodeError,
            >(NodeError::FeeExceedsBalance),
            record_balances@.len() > 0 && record_balances@.last() >= additional_fee ==> r == Ok::<
                DeployPlan,
                NodeError,
            >(DeployPlan { record_index: (record_balances@.len() - 1) as usize, additional_fee }),
    {
        let n = record_balances.len();
        if n == 0 {
            return Err(NodeError::NoRecords);
        }
        if record_balances[n - 1] < additional_fee {
            return Err(NodeError::FeeExceedsBalance);
        }
        Ok(DeployPlan { record_index: n - 1, additional_fee })
    }
}

/// A submitted block of `count` transactions takes `count` transfers and
/// then one block, and nothing after.
pub proof fn law_new_block_steps(count: nat)
    ensures
        steps_left(count, false).len() == count + 1,
        forall|i: int| 0 <= i < count ==> steps_left(count, false)[i] == NodeAction::Transfer,
        steps_left(count, false)[count as int] == NodeAction::AdvanceBlock,
        steps_left(0, true).len() == 0,
    decreases count,
{
    if count > 0 {
        law_new_block_steps((count - 1) as nat);
        let s = steps_left(count, false);
        let t = steps_left((count - 1) as nat, false);
        assert(s == seq![NodeAction::Transfer] + t);
        assert forall|i: int| 0 <= i < count implies s[i] == NodeAction::Transfer by {
            if i > 0 {
                assert(s[i] == t[i - 1]);
            }
        }
    }
}

} // verus!
