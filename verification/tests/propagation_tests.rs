use rust_blockchain::errors::Error;
use rust_blockchain::node::Node;
use rust_blockchain::propagation::PeerNotice;
use rust_blockchain::transaction::Transaction;

fn notice(target: &str, peer: &str) -> PeerNotice {
    PeerNotice {
        target: target.to_string(),
        peer: peer.to_string(),
    }
}

#[test]
fn test_autosync_between_two_servers() {
    let mut node_a = Node::new("A", 2).unwrap();
    let mut node_b = Node::new("B", 2).unwrap();
    node_a.announce("http://localhost:3003".to_string());
    node_b.announce("http://localhost:3004".to_string());

    let tx = Transaction {
        from: "A".into(),
        to: "B".into(),
        amount: 1,
    };
    let notices = node_a.introduce_peer("http://localhost:3004".to_string());
    assert_eq!(
        notices,
        vec![notice("http://localhost:3004", "http://localhost:3003")]
    );
    for sent in notices {
        assert_eq!(sent.target, node_b.address);
        node_b.introduce_peer(sent.peer);
    }

    let update = node_a.mine_and_share(vec![tx.clone()]).unwrap();
    assert_eq!(update.targets, vec!["http://localhost:3004".to_string()]);
    for target in &update.targets {
        assert_eq!(target, &node_b.address);
        assert!(node_b.replace_chain(update.chain.clone()).unwrap());
    }

    let chain_b = node_b.get_chain();
    let last_block_txs = &chain_b.blocks().last().unwrap().transactions;
    assert_eq!(last_block_txs, &vec![tx]);
}

#[test]
fn announce_takes_the_address_and_tells_every_peer() {
    let mut node = Node::new("A", 1).unwrap();
    assert!(node.announce("http://a".to_string()).is_empty());
    assert_eq!(node.address, "http://a");

    node.register_peer("http://b".to_string());
    node.register_peer("http://c".to_string());
    let notices = node.announce("http://a2".to_string());
    assert_eq!(
        notices,
        vec![notice("http://b", "http://a2"), notice("http://c", "http://a2")]
    );
    assert_eq!(node.address, "http://a2");
    assert_eq!(node.peers.len(), 2);
}

#[test]
fn new_peer_is_told_of_the_node_and_the_others_of_the_peer() {
    let mut node = Node::new("A", 1).unwrap();
    node.announce("http://a".to_string());
    node.register_peer("http://b".to_string());
    node.register_peer("http://c".to_string());

    let notices = node.introduce_peer("http://d".to_string());
    assert_eq!(
        notices,
        vec![
            notice("http://d", "http://a"),
            notice("http://b", "http://d"),
            notice("http://c", "http://d"),
        ]
    );
    assert_eq!(
        node.peers.to_vec(),
        vec![
            "http://b".to_string(),
            "http://c".to_string(),
            "http://d".to_string()
        ]
    );
}

#[test]
fn first_peer_is_told_of_the_node_alone() {
    let mut node = Node::new("A", 1).unwrap();
    node.announce("http://a".to_string());
    let notices = node.introduce_peer("http://b".to_string());
    assert_eq!(notices, vec![notice("http://b", "http://a")]);
}

#[test]
fn known_peer_is_not_introduced_again() {
    let mut node = Node::new("A", 1).unwrap();
    node.announce("http://a".to_string());
    node.register_peer("http://b".to_string());
    node.register_peer("http://c".to_string());

    let notices = node.introduce_peer("http://b".to_string());
    assert!(notices.is_empty());
    assert_eq!(
        node.peers.to_vec(),
        vec!["http://b".to_string(), "http://c".to_string()]
    );
}

#[test]
fn mined_block_is_shared_with_every_peer() {
    let mut node = Node::new("A", 2).unwrap();
    node.register_peer("http://b".to_string());
    node.register_peer("http://c".to_string());
    let tx = Transaction {
        from: "A".to_string(),
        to: "B".to_string(),
        amount: 9,
    };

    let update = node.mine_and_share(vec![tx.clone()]).unwrap();
    assert_eq!(
        update.targets,
        vec!["http://b".to_string(), "http://c".to_string()]
    );
    assert_eq!(update.chain, node.blockchain);
    assert_eq!(update.chain.blocks().len(), 2);
    assert_eq!(&update.block, node.blockchain.blocks().last().unwrap());
    assert_eq!(update.block.transactions, vec![tx]);
    assert_eq!(update.block.index, 1);
}

#[test]
fn mined_block_of_a_node_without_peers_goes_nowhere() {
    let mut node = Node::new("A", 1).unwrap();
    let update = node.mine_and_share(vec![]).unwrap();
    assert!(update.targets.is_empty());
    assert_eq!(update.chain, node.blockchain);
}

#[test]
fn failed_mining_shares_nothing() {
    let mut node = Node::new("A", 1).unwrap();
    node.register_peer("http://b".to_string());
    node.blockchain.difficulty = 65;
    let before = node.get_chain();
    match node.mine_and_share(vec![]) {
        Err(Error::UnsatisfiedHashDifficulty(1, 65)) => {}
        v => panic!("expected an unsatisfied difficulty, got {v:?}"),
    }
    assert_eq!(node.blockchain, before);

    node.blockchain.chain.clear();
    assert!(matches!(
        node.mine_and_share(vec![]),
        Err(Error::ChainIsEmpty)
    ));
}

#[test]
fn received_chain_is_not_passed_on() {
    // A node that takes over a chain answers with a flag and nothing to send.
    let mut node_a = Node::new("A", 1).unwrap();
    let mut node_b = Node::new("B", 1).unwrap();
    node_b.register_peer("http://c".to_string());
    let update = node_a.mine_and_share(vec![]).unwrap();
    let replaced: bool = node_b.replace_chain(update.chain).unwrap();
    assert!(replaced);
}
