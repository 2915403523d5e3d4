use catena::block::Block;
use catena::chain::Chain;
use catena::key::{pub_to_hex, Signer};
use catena::ledger::Ledger;
use catena::tx::{Op, Tx};
use catena::ChainError;

use ed25519_dalek::SigningKey;
use rand::rngs::OsRng;

fn new_signer() -> Signer {
    Signer::new(SigningKey::generate(&mut OsRng))
}

fn admin_bytes(key: &SigningKey) -> Vec<u8> {
    key.verifying_key().as_bytes().to_vec()
}

/// Genesis under `admin` issuing 10 units each to the given addresses.
fn chain_with_accounts(admin: &Signer, admin_vk: Vec<u8>, addrs: &[String]) -> Chain {
    let mut txs: Vec<Tx> = Vec::new();
    for addr in addrs {
        txs.push(Tx::new(
            admin,
            Op::Coinbase {
                dst: addr.clone(),
                amount: 10,
            },
        ));
    }
    Chain::new(admin_vk, &txs).expect("genesis must be accepted")
}

#[test]
fn mine_meets_difficulty() {
    for difficulty in 0..4usize {
        let txs: Vec<Tx> = Vec::new();
        let mut block = Block::init(&txs);
        assert!(block.mine(difficulty));
        assert_eq!(block.hash.len(), 64);
        assert!(block.hash.chars().take(difficulty).all(|c| c == '0'));
        assert_eq!(block.hash, block.to_hash());
    }
}

#[test]
fn hash_is_pure_and_field_sensitive() {
    let signer = new_signer();
    let txs = vec![Tx::new(&signer, Op::Msg(String::from("hi")))];
    let a = Block::init(&txs);
    let b = Block::init(&txs);
    assert_eq!(a.to_hash(), b.to_hash());
    assert_eq!(a.hash, a.to_hash());

    let mut c = Block::init(&txs);
    c.nonce = 1;
    assert_ne!(a.to_hash(), c.to_hash());
    let mut d = Block::init(&txs);
    d.height = 1;
    assert_ne!(a.to_hash(), d.to_hash());
}

#[test]
fn address_is_hex_of_verifying_key() {
    let key = SigningKey::generate(&mut OsRng);
    let expected = hex::encode(key.verifying_key().as_bytes());
    assert_eq!(pub_to_hex(&key.verifying_key()), expected);
    let signer = Signer::new(key);
    assert_eq!(signer.address(), expected);
    assert_eq!(expected.len(), 64);
}

#[test]
fn signed_tx_validates_and_tampering_breaks_it() {
    let admin = new_signer();
    let admin_vk: Vec<u8> = hex::decode(admin.address()).unwrap();
    let user = new_signer();

    // Admin-signed governance operations validate under the admin key.
    let tx = Tx::new(&admin, Op::Msg(String::from("hello")));
    assert!(tx.is_valid(&admin_vk));
    assert_eq!(tx.validate(&admin_vk), Ok(()));

    // A Pay validates under the key its own src encodes, whoever admin is.
    let pay = Tx::new(
        &user,
        Op::Pay {
            dst: admin.address(),
            amount: 1,
        },
    );
    assert!(pay.is_valid(&admin_vk));

    // The same governance operation signed by a non-admin key is rejected.
    let forged = Tx::new(&user, Op::Msg(String::from("hello")));
    assert_eq!(forged.validate(&admin_vk), Err(ChainError::Authorization));

    // A Pay whose declared src is not the signer's address is rejected.
    let mut wrong_src = Tx::new(
        &user,
        Op::Pay {
            dst: admin.address(),
            amount: 1,
        },
    );
    wrong_src.src = admin.address();
    assert_eq!(wrong_src.validate(&admin_vk), Err(ChainError::Authorization));

    // A src that is not a 64-character hex address is a malformed encoding.
    let mut bad_src = Tx::new(
        &user,
        Op::Pay {
            dst: admin.address(),
            amount: 1,
        },
    );
    bad_src.src = String::from("zz");
    assert_eq!(bad_src.validate(&admin_vk), Err(ChainError::Encoding));

    // Malformed signature bytes are a malformed encoding; 64 wrong bytes are
    // an authorization failure.
    let mut short_sig = Tx::new(&admin, Op::Msg(String::from("hello")));
    short_sig.sig.bytes = vec![0u8; 10];
    assert_eq!(short_sig.validate(&admin_vk), Err(ChainError::Encoding));
    let mut zero_sig = Tx::new(&admin, Op::Msg(String::from("hello")));
    zero_sig.sig.bytes = vec![0u8; 64];
    assert_eq!(zero_sig.validate(&admin_vk), Err(ChainError::Authorization));

    // The signature covers the payload: changing the operation breaks it.
    let mut swapped = Tx::new(&admin, Op::Msg(String::from("hello")));
    swapped.op = Op::Msg(String::from("hellp"));
    assert_eq!(swapped.validate(&admin_vk), Err(ChainError::Authorization));
}

#[test]
fn update_rejects_wrong_height() {
    let admin_key = SigningKey::generate(&mut OsRng);
    let admin = Signer::new(admin_key.clone());
    let mut ledger = Ledger::new(admin_bytes(&admin_key));
    let genesis = Block::init(&vec![Tx::new(
        &admin,
        Op::Coinbase {
            dst: admin.address(),
            amount: 10,
        },
    )]);
    assert_eq!(ledger.update(&genesis), Ok(()));
    assert_eq!(ledger.height, 0);
    assert_eq!(ledger.balance_of(&admin.address()), Some(10));

    // Jump from height 0 straight to height 2: refused, nothing changes.
    let mut skipping = Block::next(&genesis, &Vec::new());
    skipping.height = 2;
    let recomputed = skipping.to_hash();
    skipping.hash = recomputed;
    assert_eq!(ledger.update(&skipping), Err(ChainError::Sequence));
    assert_eq!(ledger.height, 0);
    assert_eq!(ledger.balance_of(&admin.address()), Some(10));
}

#[test]
fn pay_beyond_balance_is_rejected_and_state_kept() {
    let admin_key = SigningKey::generate(&mut OsRng);
    let admin = Signer::new(admin_key.clone());
    let alice = new_signer();
    let bob = new_signer();
    let mut chain = chain_with_accounts(
        &admin,
        admin_bytes(&admin_key),
        &[alice.address(), bob.address()],
    );

    let overdraft = Tx::new(
        &alice,
        Op::Pay {
            dst: bob.address(),
            amount: 11,
        },
    );
    assert_eq!(chain.submit(&vec![overdraft]), Err(ChainError::Policy));
    assert_eq!(chain.blocks.len(), 1);
    assert_eq!(chain.ledger.height, 0);
    assert_eq!(chain.ledger.balance_of(&alice.address()), Some(10));
    assert_eq!(chain.ledger.balance_of(&bob.address()), Some(10));

    // A failing transaction later in the block undoes the whole block.
    let ok_pay = Tx::new(
        &alice,
        Op::Pay {
            dst: bob.address(),
            amount: 5,
        },
    );
    let missing_src = Tx::new(
        &new_signer(),
        Op::Pay {
            dst: bob.address(),
            amount: 1,
        },
    );
    assert_eq!(
        chain.submit(&vec![ok_pay, missing_src]),
        Err(ChainError::Policy)
    );
    assert_eq!(chain.ledger.balance_of(&alice.address()), Some(10));
    assert_eq!(chain.ledger.balance_of(&bob.address()), Some(10));
}

#[test]
fn coinbase_past_genesis_is_rejected() {
    let admin_key = SigningKey::generate(&mut OsRng);
    let admin = Signer::new(admin_key.clone());
    let alice = new_signer();
    let mut chain = chain_with_accounts(&admin, admin_bytes(&admin_key), &[alice.address()]);

    let late_issue = Tx::new(
        &admin,
        Op::Coinbase {
            dst: alice.address(),
            amount: 1000,
        },
    );
    assert_eq!(chain.submit(&vec![late_issue]), Err(ChainError::Policy));
    assert_eq!(chain.ledger.balance_of(&alice.address()), Some(10));
    assert_eq!(chain.blocks.len(), 1);
}

#[test]
fn governance_needs_admin_signature() {
    let admin_key = SigningKey::generate(&mut OsRng);
    let admin = Signer::new(admin_key.clone());
    let mallory = new_signer();
    let mut chain = chain_with_accounts(&admin, admin_bytes(&admin_key), &[mallory.address()]);

    for forged in [
        Tx::new(&mallory, Op::SetDifficulty(1)),
        Tx::new(&mallory, Op::Msg(String::from("mine now"))),
        Tx::new(
            &mallory,
            Op::Coinbase {
                dst: mallory.address(),
                amount: 1000,
            },
        ),
    ] {
        assert_eq!(
            chain.submit(&vec![forged]),
            Err(ChainError::Authorization)
        );
        assert_eq!(chain.blocks.len(), 1);
        assert_eq!(chain.ledger.balance_of(&mallory.address()), Some(10));
    }
}

#[test]
fn difficulty_applies_to_future_blocks() {
    let admin_key = SigningKey::generate(&mut OsRng);
    let admin = Signer::new(admin_key.clone());
    let mut chain = Chain::new(
        admin_bytes(&admin_key),
        &vec![Tx::new(&admin, Op::SetDifficulty(2))],
    )
    .unwrap();
    assert_eq!(chain.ledger.difficulty, 2);

    // The next block is mined at difficulty 2.
    assert_eq!(chain.submit(&Vec::new()), Ok(()));
    let sealed = &chain.blocks[1];
    assert!(sealed.hash.chars().take(2).all(|c| c == '0'));

    // A difficulty beyond the digest's 64 hex characters is refused.
    let too_deep = Tx::new(&admin, Op::SetDifficulty(65));
    assert_eq!(chain.submit(&vec![too_deep]), Err(ChainError::Policy));
    assert_eq!(chain.ledger.difficulty, 2);
}

#[test]
fn messages_are_recorded_in_order() {
    let admin_key = SigningKey::generate(&mut OsRng);
    let admin = Signer::new(admin_key.clone());
    let mut chain = Chain::new(
        admin_bytes(&admin_key),
        &vec![Tx::new(
            &admin,
            Op::Msg(String::from(
                "Chancellor on brink of second bailout for banks",
            )),
        )],
    )
    .unwrap();
    assert_eq!(chain.submit(&vec![Tx::new(&admin, Op::Msg(String::from("two")))]), Ok(()));
    assert_eq!(chain.ledger.messages.len(), 2);
    assert_eq!(
        chain.ledger.messages[0],
        "Chancellor on brink of second bailout for banks"
    );
    assert_eq!(chain.ledger.messages[1], "two");
}

#[test]
fn built_chains_are_valid_and_tampering_shows() {
    let admin_key = SigningKey::generate(&mut OsRng);
    let admin = Signer::new(admin_key.clone());
    let alice = new_signer();
    let bob = new_signer();
    let mut chain = chain_with_accounts(
        &admin,
        admin_bytes(&admin_key),
        &[alice.address(), bob.address()],
    );
    assert!(chain.is_valid());

    let pay = Tx::new(
        &alice,
        Op::Pay {
            dst: bob.address(),
            amount: 3,
        },
    );
    assert_eq!(chain.submit(&vec![pay]), Ok(()));
    assert!(chain.is_valid());

    // A tampered stored hash breaks the chain's integrity...
    let kept = chain.blocks[1].hash.clone();
    chain.blocks[1].hash = String::from("0").repeat(64);
    assert!(!chain.is_valid());
    chain.blocks[1].hash = kept;
    assert!(chain.is_valid());

    // ...and so does a tampered parent link.
    let kept = chain.blocks[1].parent_hash.clone();
    chain.blocks[1].parent_hash = String::from("f").repeat(64);
    assert!(!chain.is_valid());
    chain.blocks[1].parent_hash = kept;
    assert!(chain.is_valid());

    // Tampering a balance-bearing field breaks the block's own digest.
    chain.blocks[1].nonce = chain.blocks[1].nonce.wrapping_add(1);
    assert!(!chain.is_valid());
}

#[test]
fn end_to_end_three_accounts() {
    let admin_key = SigningKey::generate(&mut OsRng);
    let admin = Signer::new(admin_key.clone());
    let alice = new_signer();
    let bob = new_signer();
    let charlie = new_signer();

    let mut chain = chain_with_accounts(
        &admin,
        admin_bytes(&admin_key),
        &[alice.address(), bob.address(), charlie.address()],
    );
    assert_eq!(chain.ledger.difficulty, 0);

    let a_pays_b = Tx::new(
        &alice,
        Op::Pay {
            dst: bob.address(),
            amount: 10,
        },
    );
    assert_eq!(chain.submit(&vec![a_pays_b]), Ok(()));
    assert_eq!(chain.ledger.balance_of(&alice.address()), Some(0));
    assert_eq!(chain.ledger.balance_of(&bob.address()), Some(20));
    assert_eq!(chain.ledger.balance_of(&charlie.address()), Some(10));

    let b_pays_c = Tx::new(
        &bob,
        Op::Pay {
            dst: charlie.address(),
            amount: 5,
        },
    );
    assert_eq!(chain.submit(&vec![b_pays_c]), Ok(()));
    assert_eq!(chain.ledger.balance_of(&alice.address()), Some(0));
    assert_eq!(chain.ledger.balance_of(&bob.address()), Some(15));
    assert_eq!(chain.ledger.balance_of(&charlie.address()), Some(15));

    assert_eq!(chain.ledger.height, 2);
    assert_eq!(chain.blocks.len(), 3);
    assert!(chain.is_valid());
}

#[test]
fn pay_to_self_conserves_balance() {
    let admin_key = SigningKey::generate(&mut OsRng);
    let admin = Signer::new(admin_key.clone());
    let alice = new_signer();
    let mut chain = chain_with_accounts(&admin, admin_bytes(&admin_key), &[alice.address()]);

    let self_pay = Tx::new(
        &alice,
        Op::Pay {
            dst: alice.address(),
            amount: 7,
        },
    );
    assert_eq!(chain.submit(&vec![self_pay]), Ok(()));
    assert_eq!(chain.ledger.balance_of(&alice.address()), Some(10));
}

#[test]
fn genesis_with_bad_signature_is_refused() {
    let admin_key = SigningKey::generate(&mut OsRng);
    let mallory = new_signer();
    // The issuance is signed by mallory, not the admin: no chain is built.
    let txs = vec![Tx::new(
        &mallory,
        Op::Coinbase {
            dst: mallory.address(),
            amount: 10,
        },
    )];
    match Chain::new(admin_bytes(&admin_key), &txs) {
        Err(e) => assert_eq!(e, ChainError::Authorization),
        Ok(_) => panic!("a forged genesis must not build a chain"),
    }
}
