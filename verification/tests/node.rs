use aleo_pool::node::{DeployPlan, Node, NodeAction, NodeError, NodeRequest};
use aleo_pool::shares::SharesRequest;

#[test]
fn new_block_takes_count_transfers_then_one_block() {
    let node = Node::new("aleo1to".to_string());
    let mut job = node.update(NodeRequest::NewBlock("w".to_string(), "k".to_string(), 3));
    let mut actions = Vec::new();
    loop {
        let a = job.next_action();
        if a == NodeAction::Done {
            break;
        }
        actions.push(a);
    }
    assert_eq!(
        actions,
        vec![NodeAction::Transfer, NodeAction::Transfer, NodeAction::Transfer, NodeAction::AdvanceBlock]
    );
    assert_eq!(job.next_action(), NodeAction::Done);
    match job.block_advanced(41, "hash".to_string()) {
        SharesRequest::NewBlock(h, bh, w, k) => {
            assert_eq!((h, bh.as_str(), w.as_str(), k.as_str()), (41, "hash", "w", "k"));
        },
        _ => panic!("expected a block report"),
    }
}

#[test]
fn zero_transfers_still_advance_the_block() {
    let node = Node::new("a".to_string());
    let mut job = node.update(NodeRequest::NewBlock("w".to_string(), "k".to_string(), 0));
    assert_eq!(job.next_action(), NodeAction::AdvanceBlock);
    assert_eq!(job.next_action(), NodeAction::Done);
}

#[test]
fn transfer_spends_the_last_record() {
    let p = Node::create_transfer(&vec![5, 9, 2], "aleo1dest".to_string(), 1).ok().unwrap();
    assert_eq!(p.record_index, 2);
    assert_eq!((p.program.as_str(), p.function.as_str()), ("credits.aleo", "transfer"));
    assert_eq!(p.receiver, "aleo1dest");
    assert_eq!(p.amount, "1u64");
    let p = Node::create_transfer(&vec![0], "x".to_string(), 1234567).ok().unwrap();
    assert_eq!(p.amount, "1234567u64");
    assert_eq!(Node::create_transfer(&vec![], "x".to_string(), 1).err(), Some(NodeError::NoRecords));

    let node = Node::new("aleo1to".to_string());
    let p = node.block_transfer(&vec![3]).ok().unwrap();
    assert_eq!((p.record_index, p.receiver.as_str(), p.amount.as_str()), (0, "aleo1to", "1u64"));
}

#[test]
fn deploy_fee_must_fit_the_last_record() {
    assert_eq!(Node::create_deploy(&vec![], 0), Err(NodeError::NoRecords));
    assert_eq!(Node::create_deploy(&vec![100, 5], 6), Err(NodeError::FeeExceedsBalance));
    assert_eq!(Node::create_deploy(&vec![1, 5], 5), Ok(DeployPlan { record_index: 1, additional_fee: 5 }));
    assert_eq!(Node::create_deploy(&vec![7], 0), Ok(DeployPlan { record_index: 0, additional_fee: 0 }));
    assert_eq!(NodeError::NoRecords.message(), "The Aleo account has no records to spend.");
    assert_eq!(NodeError::FeeExceedsBalance.message(), "The additional fee exceeds the record balance.");
}

#[test]
fn block_report_carries_the_block_height() {
    let node = Node::new("a".to_string());
    let job = node.update(NodeRequest::NewBlock("w".to_string(), "k".to_string(), 0));
    match job.block_advanced(u32::MAX, "h".to_string()) {
        SharesRequest::NewBlock(h, _, _, _) => assert_eq!(h, u32::MAX),
        _ => panic!("expected a block report"),
    }
}
