use rust_blockchain::block::Block;
use rust_blockchain::blockchain::Blockchain;
use rust_blockchain::errors::Error;
use rust_blockchain::transaction::Transaction;

fn pay(from: &str, to: &str, amount: u64) -> Transaction {
    Transaction {
        from: from.to_string(),
        to: to.to_string(),
        amount,
    }
}

fn chain_of_three() -> Blockchain {
    let mut blockchain = Blockchain::new(2).unwrap();
    blockchain.add_block(vec![pay("A", "B", 100)]).unwrap();
    blockchain.add_block(vec![pay("B", "C", 100)]).unwrap();
    blockchain
}

#[test]
fn test_new_blockchain_creates_genesis_block() {
    let difficulty = 2;
    let blockchain = Blockchain::new(difficulty).unwrap();

    assert_eq!(blockchain.chain.len(), 1);
    let genesis = &blockchain.chain[0];
    assert_eq!(genesis.index, 0);
    assert_eq!(genesis.previous_hash, "0");
    assert_eq!(genesis.transactions, vec![]);
    assert!(genesis.hash.starts_with(&"0".repeat(difficulty)));
}

#[test]
fn test_add_block_appends_new_block() {
    let difficulty = 2;
    let mut blockchain = Blockchain::new(difficulty).unwrap();

    blockchain
        .add_block(vec![Transaction {
            from: "A".to_string(),
            to: "B".to_string(),
            amount: 100,
        }])
        .unwrap();
    blockchain
        .add_block(vec![Transaction {
            from: "B".to_string(),
            to: "C".to_string(),
            amount: 100,
        }])
        .unwrap();

    assert_eq!(blockchain.chain.len(), 3);
    assert_eq!(
        blockchain.chain[2].transactions,
        vec![Transaction {
            from: "B".to_string(),
            to: "C".to_string(),
            amount: 100,
        }]
    );
    assert_eq!(blockchain.chain[2].index, 2);
    assert_eq!(blockchain.chain[2].previous_hash, blockchain.chain[1].hash);
}

#[test]
fn test_latest_block_returns_last_block() {
    let difficulty = 2;
    let mut blockchain = Blockchain::new(difficulty).unwrap();
    blockchain
        .add_block(vec![Transaction {
            from: "A".to_string(),
            to: "B".to_string(),
            amount: 100,
        }])
        .unwrap();

    let latest = blockchain.blocks().last().unwrap();
    assert_eq!(
        latest.transactions,
        vec![Transaction {
            from: "A".to_string(),
            to: "B".to_string(),
            amount: 100,
        }]
    );
}

#[test]
fn test_validate_chain_success() {
    let difficulty = 2;
    let mut blockchain = Blockchain::new(difficulty).unwrap();
    blockchain
        .add_block(vec![Transaction {
            from: "A".to_string(),
            to: "B".to_string(),
            amount: 100,
        }])
        .unwrap();
    blockchain
        .add_block(vec![Transaction {
            from: "B".to_string(),
            to: "C".to_string(),
            amount: 100,
        }])
        .unwrap();

    let result = blockchain.validate();
    assert!(result.is_ok());
}

#[test]
fn test_validate_chain_with_tampered_block_hash() {
    let difficulty = 2;
    let mut blockchain = Blockchain::new(difficulty).unwrap();
    blockchain
        .add_block(vec![Transaction {
            from: "A".to_string(),
            to: "B".to_string(),
            amount: 100,
        }])
        .unwrap();
    blockchain
        .add_block(vec![Transaction {
            from: "B".to_string(),
            to: "C".to_string(),
            amount: 100,
        }])
        .unwrap();

    blockchain.chain[2].hash = "00_bad_hash".to_string();

    let result = blockchain.validate();
    match result {
        Err(Error::BlockHasInvalidHash(index, _)) => assert_eq!(index, 2),
        v => panic!("Expected error BlockHasInvalidHash, actual {v:?}"),
    }
}

#[test]
fn test_validate_chain_with_wrong_difficulty() {
    let difficulty = 2;
    let mut blockchain = Blockchain::new(difficulty).unwrap();
    blockchain
        .add_block(vec![Transaction {
            from: "A".to_string(),
            to: "B".to_string(),
            amount: 100,
        }])
        .unwrap();
    // One hash in 256 that meets difficulty 2 meets 4 as well: take the next second then.
    while blockchain.chain[1].hash.starts_with("0000") {
        blockchain.chain[1].timestamp += 1;
        blockchain.chain[1].mine_block(difficulty).unwrap();
    }
    blockchain.difficulty = 4;

    let result = blockchain.validate();
    match result {
        Err(Error::UnsatisfiedHashDifficulty(index, _)) => assert_eq!(index, 1),
        v => panic!("Expected error UnsatisfiedHashDifficulty, actual {v:?}"),
    }
}

#[test]
fn test_validate_chain_with_wrong_previous_hash() {
    let difficulty = 2;
    let mut blockchain = Blockchain::new(difficulty).unwrap();
    blockchain
        .add_block(vec![Transaction {
            from: "A".to_string(),
            to: "B".to_string(),
            amount: 100,
        }])
        .unwrap();

    blockchain.chain[1].previous_hash = "WRONG".to_string();

    let result = blockchain.validate();
    match result {
        Err(Error::BlockHasInvalidPreviusBlockHash(index, _, _)) => assert_eq!(index, 1),
        v => panic!("Expected error BlockHasInvalidPreviusBlockHash, actual {v:?}"),
    }
}

#[test]
fn test_validate_empty_chain_fails() {
    let mut blockchain = Blockchain::new(2).unwrap();
    blockchain.chain = vec![];
    let result = blockchain.validate();
    assert!(matches!(result, Err(Error::ChainIsEmpty)));
}

#[test]
fn genesis_at_a_given_time_is_the_known_block() {
    let blockchain = Blockchain::with_genesis_at(2, 1_700_000_000).unwrap();
    assert_eq!(blockchain.difficulty, 2);
    assert_eq!(blockchain.chain.len(), 1);
    let genesis = &blockchain.chain[0];
    assert_eq!(genesis.index, 0);
    assert_eq!(genesis.timestamp, 1_700_000_000);
    assert_eq!(genesis.previous_hash, "0");
    assert!(genesis.transactions.is_empty());
    assert_eq!(genesis.nonce, 279);
    assert_eq!(
        genesis.hash,
        "00850801028a49081e61727a68e23f5050b51f15f32493582cfd749ea7bdf775"
    );
}

#[test]
fn genesis_beyond_the_length_of_a_digest_fails() {
    match Blockchain::new(65) {
        Err(Error::UnsatisfiedHashDifficulty(0, 65)) => {}
        v => panic!("expected an unsatisfied difficulty, got {v:?}"),
    }
    match Blockchain::with_genesis_at(100, 5) {
        Err(Error::UnsatisfiedHashDifficulty(0, 100)) => {}
        v => panic!("expected an unsatisfied difficulty, got {v:?}"),
    }
}

#[test]
fn appended_block_is_returned_linked_and_mined() {
    let mut blockchain = Blockchain::with_genesis_at(2, 1_700_000_000).unwrap();
    let tail_hash = blockchain.chain[0].hash.clone();
    let added = blockchain
        .add_block_at(vec![pay("A", "B", 5)], 1_700_000_001)
        .unwrap()
        .clone();
    assert_eq!(added.index, 1);
    assert_eq!(added.timestamp, 1_700_000_001);
    assert_eq!(added.previous_hash, tail_hash);
    assert_eq!(added.transactions, vec![pay("A", "B", 5)]);
    assert!(added.hash.starts_with("00"));
    assert_eq!(added.hash, added.compute_hash());
    assert_eq!(blockchain.chain.len(), 2);
    assert_eq!(blockchain.chain[1], added);
    assert_eq!(blockchain.difficulty, 2);

    let mut alone = Block::with_timestamp(
        1,
        1_700_000_001,
        tail_hash,
        vec![pay("A", "B", 5)],
    );
    alone.mine_block(2).unwrap();
    assert_eq!(alone, added);
}

#[test]
fn append_to_an_empty_chain_fails() {
    let mut blockchain = Blockchain {
        chain: vec![],
        difficulty: 1,
    };
    assert!(matches!(
        blockchain.add_block(vec![]),
        Err(Error::ChainIsEmpty)
    ));
    assert!(matches!(
        blockchain.add_block_at(vec![], 9),
        Err(Error::ChainIsEmpty)
    ));
    assert!(blockchain.chain.is_empty());
}

#[test]
fn append_beyond_the_length_of_a_digest_leaves_the_chain() {
    let mut blockchain = Blockchain::with_genesis_at(1, 1_700_000_000).unwrap();
    blockchain.difficulty = 70;
    let before = blockchain.clone();
    match blockchain.add_block(vec![pay("A", "B", 5)]) {
        Err(Error::UnsatisfiedHashDifficulty(1, 70)) => {}
        v => panic!("expected an unsatisfied difficulty, got {v:?}"),
    }
    assert_eq!(blockchain, before);
}

#[test]
fn created_and_twice_appended_chain_validates() {
    let mut blockchain = Blockchain::new(2).unwrap();
    blockchain.add_block(vec![pay("A", "A", 0)]).unwrap();
    blockchain.add_block(vec![pay("B", "B", 0)]).unwrap();
    assert_eq!(blockchain.blocks().len(), 3);
    assert_eq!(
        blockchain.blocks()[2].previous_hash,
        blockchain.blocks()[1].hash
    );
    assert!(blockchain.validate().is_ok());
}

#[test]
fn every_block_of_a_mined_chain_carries_its_digest() {
    let blockchain = chain_of_three();
    assert!(blockchain.validate().is_ok());
    for (i, block) in blockchain.blocks().iter().enumerate() {
        assert_eq!(block.index, i as u64);
        assert_eq!(block.hash, block.compute_hash());
        assert!(block.hash.starts_with("00"));
    }
    assert_eq!(blockchain.chain[0].previous_hash, "0");
}

#[test]
fn validation_does_not_look_at_the_genesis_block() {
    let mut blockchain = chain_of_three();
    blockchain.chain[0].nonce += 1;
    blockchain.chain[0].previous_hash = "1".to_string();
    assert!(blockchain.validate().is_ok());
}

#[test]
fn validation_reports_the_first_fault_of_several() {
    let mut blockchain = chain_of_three();
    blockchain.chain[1].transactions[0].amount = 1;
    blockchain.chain[2].previous_hash = "WRONG".to_string();
    match blockchain.validate() {
        Err(Error::BlockHasInvalidHash(1, hash)) => assert_eq!(hash, blockchain.chain[1].hash),
        v => panic!("expected a wrong hash at 1, got {v:?}"),
    }
}

#[test]
fn tampered_content_is_reported_at_its_index() {
    let mut by_amount = chain_of_three();
    by_amount.chain[2].transactions[0].amount = 1;
    assert!(matches!(
        by_amount.validate(),
        Err(Error::BlockHasInvalidHash(2, _))
    ));

    let mut by_time = chain_of_three();
    by_time.chain[1].timestamp += 1;
    assert!(matches!(
        by_time.validate(),
        Err(Error::BlockHasInvalidHash(1, _))
    ));

    let mut by_nonce = chain_of_three();
    by_nonce.chain[1].nonce += 1;
    assert!(matches!(
        by_nonce.validate(),
        Err(Error::BlockHasInvalidHash(1, _))
    ));

    let mut by_index = chain_of_three();
    by_index.chain[2].index = 7;
    assert!(matches!(
        by_index.validate(),
        Err(Error::BlockHasInvalidHash(7, _))
    ));
}

#[test]
fn tampered_hash_is_reported_at_its_index() {
    let mut blockchain = chain_of_three();
    blockchain.chain[1].hash = "ff".to_string();
    match blockchain.validate() {
        Err(Error::UnsatisfiedHashDifficulty(1, 2)) => {}
        v => panic!("expected an unsatisfied difficulty at 1, got {v:?}"),
    }
}

#[test]
fn tampered_link_is_reported_with_both_hashes() {
    let mut blockchain = chain_of_three();
    blockchain.chain[2].previous_hash = "WRONG".to_string();
    match blockchain.validate() {
        Err(Error::BlockHasInvalidPreviusBlockHash(2, actual, expected)) => {
            assert_eq!(actual, "WRONG");
            assert_eq!(expected, blockchain.chain[1].hash);
        }
        v => panic!("expected a wrong link at 2, got {v:?}"),
    }
}

#[test]
fn changed_hash_breaks_the_link_of_the_next_block() {
    let mut blockchain = chain_of_three();
    let mut forged = blockchain.chain[1].clone();
    forged.transactions[0].amount = 1;
    forged.mine_block(2).unwrap();
    blockchain.chain[1] = forged;
    assert!(matches!(
        blockchain.validate(),
        Err(Error::BlockHasInvalidPreviusBlockHash(2, _, _))
    ));
}

#[test]
fn fields_that_spell_the_same_text_have_the_same_digest() {
    // The hashed text has no separators: index 1 before timestamp 1700000000
    // reads as index 11 before timestamp 700000000.
    let mut blockchain = Blockchain::with_genesis_at(2, 1_700_000_000).unwrap();
    blockchain
        .add_block_at(vec![pay("A", "B", 5)], 1_700_000_000)
        .unwrap();
    assert!(blockchain.validate().is_ok());

    blockchain.chain[1].index = 11;
    blockchain.chain[1].timestamp = 700_000_000;
    assert_eq!(blockchain.chain[1].hash, blockchain.chain[1].compute_hash());
    assert!(blockchain.validate().is_ok());
}

#[test]
fn replace_keeps_the_chain_when_the_other_is_not_longer() {
    let mut blockchain = chain_of_three();
    let before = blockchain.clone();

    let shorter = Blockchain::new(2).unwrap();
    assert!(!blockchain.replace_chain(shorter).unwrap());
    assert_eq!(blockchain, before);

    let equal = chain_of_three();
    assert!(!blockchain.replace_chain(equal).unwrap());
    assert_eq!(blockchain, before);

    let mut broken = chain_of_three();
    broken.chain[1].hash = "broken".to_string();
    assert!(!blockchain.replace_chain(broken).unwrap());
    assert_eq!(blockchain, before);

    let empty = Blockchain {
        chain: vec![],
        difficulty: 2,
    };
    assert!(!blockchain.replace_chain(empty).unwrap());
    assert_eq!(blockchain, before);
}

#[test]
fn replace_refuses_a_longer_chain_that_does_not_validate() {
    let mut blockchain = Blockchain::new(2).unwrap();
    let before = blockchain.clone();

    let mut longer = chain_of_three();
    longer.chain[2].transactions[0].amount = 1;
    match blockchain.replace_chain(longer) {
        Err(Error::BlockHasInvalidHash(2, _)) => {}
        v => panic!("expected a wrong hash at 2, got {v:?}"),
    }
    assert_eq!(blockchain, before);
}

#[test]
fn replace_takes_over_a_longer_chain_that_validates() {
    let mut blockchain = Blockchain::new(2).unwrap();
    let longer = chain_of_three();
    let expected = longer.clone();
    assert!(blockchain.replace_chain(longer).unwrap());
    assert_eq!(blockchain, expected);
}

#[test]
fn replace_takes_over_the_difficulty_of_the_other() {
    let mut blockchain = Blockchain::new(2).unwrap();
    let mut longer = Blockchain::new(1).unwrap();
    longer.add_block(vec![]).unwrap();
    let expected = longer.clone();
    assert!(blockchain.replace_chain(longer).unwrap());
    assert_eq!(blockchain.difficulty, 1);
    assert_eq!(blockchain, expected);
}

#[test]
fn balance_sums_what_is_received_less_what_is_sent() {
    let mut blockchain = Blockchain::new(2).unwrap();
    blockchain
        .add_block(vec![pay("A", "B", 100), pay("A", "B", 10), pay("B", "A", 50)])
        .unwrap();
    assert_eq!(blockchain.get_balance("B"), 60);
    assert_eq!(blockchain.get_balance("A"), -60);
    assert_eq!(blockchain.get_balance("C"), 0);
}

#[test]
fn balance_runs_over_all_blocks() {
    let mut blockchain = Blockchain::new(1).unwrap();
    blockchain.add_block(vec![pay("A", "B", 100)]).unwrap();
    blockchain.add_block(vec![]).unwrap();
    blockchain
        .add_block(vec![pay("B", "C", 30), pay("C", "B", 1)])
        .unwrap();
    assert_eq!(blockchain.get_balance("A"), -100);
    assert_eq!(blockchain.get_balance("B"), 71);
    assert_eq!(blockchain.get_balance("C"), 29);
    assert_eq!(blockchain.get_balance(""), 0);
}

#[test]
fn balance_counts_a_transfer_to_oneself_as_sent() {
    let mut blockchain = Blockchain::new(1).unwrap();
    blockchain.add_block(vec![pay("A", "A", 25)]).unwrap();
    assert_eq!(blockchain.get_balance("A"), -25);
}

#[test]
fn balance_of_an_empty_chain_is_zero() {
    let blockchain = Blockchain {
        chain: vec![],
        difficulty: 0,
    };
    assert_eq!(blockchain.get_balance("A"), 0);
}

#[test]
fn balance_wraps_around_the_range_of_64_bits() {
    let mut blockchain = Blockchain::new(0).unwrap();
    blockchain
        .add_block(vec![pay("A", "B", u64::MAX), pay("A", "B", 3)])
        .unwrap();
    // 2^64 + 2 and its negative, reduced to 64 bits.
    assert_eq!(blockchain.get_balance("B"), 2);
    assert_eq!(blockchain.get_balance("A"), -2);

    let mut large = Blockchain::new(0).unwrap();
    large
        .add_block(vec![pay("A", "B", 1 << 63)])
        .unwrap();
    assert_eq!(large.get_balance("B"), i64::MIN);
    assert_eq!(large.get_balance("A"), i64::MIN);

    let mut edge = Blockchain::new(0).unwrap();
    edge.add_block(vec![pay("A", "B", i64::MAX as u64)]).unwrap();
    assert_eq!(edge.get_balance("B"), i64::MAX);
    assert_eq!(edge.get_balance("A"), -i64::MAX);
}

#[test]
fn clone_is_equal_to_the_chain() {
    let blockchain = chain_of_three();
    let copy = blockchain.clone();
    assert_eq!(copy.difficulty, blockchain.difficulty);
    assert_eq!(copy.chain.len(), 3);
    for (theirs, ours) in copy.chain.iter().zip(blockchain.chain.iter()) {
        assert_eq!(theirs.hash, ours.hash);
        assert_eq!(theirs, ours);
    }
}
