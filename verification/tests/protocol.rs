use linkora::contract::Linkora;
use linkora::fees::split_tip;
use linkora::types::{AccountId, ContractError, FollowEvent, Party, PostCreatedEvent, Transfer};
use linkora::validation::{validate_content, validate_username, ContentError, UsernameError};

const ADMIN: AccountId = 100;
const TREASURY: AccountId = 101;

fn setup_contract() -> (Linkora, AccountId, AccountId) {
    let mut client = Linkora::new();
    client.initialize(ADMIN, TREASURY, 0).unwrap();
    (client, ADMIN, TREASURY)
}

fn bytes(s: &str) -> Vec<u8> {
    s.as_bytes().to_vec()
}

// ── Scenarios of the original test suite ──────────────────────────────────

#[test]
fn test_set_and_get_profile() {
    let (mut client, _, _) = setup_contract();
    let user: AccountId = 1;
    let token: AccountId = 2;
    client.set_profile(user, bytes("alice"), token).unwrap();
    let profile = client.get_profile(user).unwrap();
    assert_eq!(profile.username, bytes("alice"));
}

#[test]
fn test_tip_fee_split() {
    let mut client = Linkora::new();
    let admin: AccountId = 1;
    let treasury: AccountId = 2;
    let author: AccountId = 3;
    let tipper: AccountId = 4;
    let token: AccountId = 5;

    // 2.5% fee (250 bps)
    client.initialize(admin, treasury, 250).unwrap();
    let post_id = client.create_post(author, bytes("Fee test post"), 0).unwrap().id;

    let receipt = client.tip(tipper, post_id, token, 1000).unwrap();

    // Fee = 1000 * 250 / 10000 = 25; the author gets 1000 - 25 = 975.
    let fee = receipt.fee_payment.unwrap();
    assert_eq!(fee.to, Party::Account(treasury));
    assert_eq!(fee.amount, 25);
    assert_eq!(receipt.author_payment.to, Party::Account(author));
    assert_eq!(receipt.author_payment.amount, 975);

    let post = client.get_post(post_id).unwrap();
    assert_eq!(post.tip_total, 1000);
}

#[test]
fn test_profile_count() {
    let (mut client, _, _) = setup_contract();
    let user1: AccountId = 1;
    let user2: AccountId = 2;
    let token: AccountId = 3;

    client.set_profile(user1, bytes("alice"), token).unwrap();
    assert_eq!(client.profile_count(), 1);

    // Updating a profile does not add one.
    client.set_profile(user1, bytes("alice_new"), token).unwrap();
    assert_eq!(client.profile_count(), 1);

    client.set_profile(user2, bytes("bob"), token).unwrap();
    assert_eq!(client.profile_count(), 2);
}

#[test]
fn test_post_count() {
    let (mut client, _, _) = setup_contract();
    let author: AccountId = 1;
    client.create_post(author, bytes("Post 1"), 0).unwrap();
    client.create_post(author, bytes("Post 2"), 0).unwrap();
    assert_eq!(client.get_post_count(), 2);
}

#[test]
fn test_follow_and_unfollow() {
    let (mut client, _, _) = setup_contract();
    let alice: AccountId = 1;
    let bob: AccountId = 2;
    client.follow(alice, bob).unwrap();
    assert_eq!(client.get_following(alice).len(), 1);
    assert_eq!(client.get_followers(bob).len(), 1);

    client.unfollow(alice, bob);
    assert_eq!(client.get_following(alice).len(), 0);
    assert_eq!(client.get_followers(bob).len(), 0);
}

#[test]
fn test_block_prevents_follow() {
    let (mut client, _, _) = setup_contract();
    let blocker: AccountId = 1;
    let blocked: AccountId = 2;
    client.block_user(blocker, blocked);
    assert!(client.is_blocked(blocker, blocked));
}

#[test]
#[should_panic(expected = "blocked")]
fn test_blocked_follow_panics() {
    let (mut client, _, _) = setup_contract();
    let alice: AccountId = 1;
    let bob: AccountId = 2;

    // Bob blocks Alice, then Alice tries to follow Bob.
    client.block_user(bob, alice);
    if let Err(ContractError::Blocked) = client.follow(alice, bob) {
        panic!("blocked");
    }
}

#[test]
fn test_like_post() {
    let (mut client, _, _) = setup_contract();
    let author: AccountId = 1;
    let user: AccountId = 2;
    let post_id = client.create_post(author, bytes("Like test"), 0).unwrap().id;

    client.like_post(user, post_id).unwrap();
    assert_eq!(client.get_like_count(post_id), 1);
    assert!(client.has_liked(user, post_id));

    // A repeated like does not count again.
    client.like_post(user, post_id).unwrap();
    assert_eq!(client.get_like_count(post_id), 1);
}

#[test]
fn test_pool_authorization() {
    let (mut client, _, _) = setup_contract();
    let pool_admin1: AccountId = 1;
    let pool_admin2: AccountId = 2;
    let other_user: AccountId = 3;
    let token: AccountId = 4;
    let pool_id: u64 = 1;

    // A pool that needs both of its two admins.
    client.create_pool(pool_id, token, vec![pool_admin1, pool_admin2], 2).unwrap();

    // Anyone may deposit.
    client.pool_deposit(other_user, pool_id, token, 100).unwrap();

    // Both admins together may withdraw.
    client.pool_withdraw(&vec![pool_admin1, pool_admin2], pool_id, 50, other_user).unwrap();
    assert_eq!(client.get_pool(pool_id).unwrap().balance, 50);
}

#[test]
#[should_panic(expected = "insufficient signers")]
fn test_pool_withdraw_insufficient_signers() {
    let (mut client, _, _) = setup_contract();
    let pool_admin1: AccountId = 1;
    let pool_admin2: AccountId = 2;
    let other_user: AccountId = 3;
    let token: AccountId = 4;
    let pool_id: u64 = 1;

    client.create_pool(pool_id, token, vec![pool_admin1, pool_admin2], 2).unwrap();
    client.pool_deposit(other_user, pool_id, token, 100).unwrap();

    // One signer where two are needed.
    if let Err(ContractError::InsufficientSigners) = client.pool_withdraw(&vec![pool_admin1], pool_id, 50, other_user) {
        panic!("insufficient signers");
    }
}

#[test]
fn test_sequential_posts() {
    let (mut client, _, _) = setup_contract();
    let author: AccountId = 1;

    let ts1 = 1000;
    let post_id1 = client.create_post(author, bytes("First post"), ts1).unwrap().id;
    assert_eq!(post_id1, 1);

    let post1 = client.get_post(post_id1).unwrap();
    assert_eq!(post1.timestamp, ts1);
    assert_eq!(post1.id, 1);

    let ts2 = 2000;
    let post_id2 = client.create_post(author, bytes("Second post"), ts2).unwrap().id;
    assert_eq!(post_id2, 2);

    let post2 = client.get_post(post_id2).unwrap();
    assert_eq!(post2.timestamp, ts2);
    assert_eq!(post2.id, 2);
}

#[test]
#[should_panic(expected = "post does not exist: 999")]
fn test_delete_post_non_existent() {
    let (mut client, _, _) = setup_contract();
    let author: AccountId = 1;
    if let Err(ContractError::PostDoesNotExist(id)) = client.delete_post(author, 999) {
        panic!("post does not exist: {}", id);
    }
}

// ── Settings ──────────────────────────────────────────────────────────────

#[test]
fn initialize_only_once() {
    let (mut client, _, _) = setup_contract();
    assert_eq!(client.initialize(1, 2, 0), Err(ContractError::AlreadyInitialized));
    assert_eq!(client.admin(), Some(ADMIN));
    assert_eq!(client.treasury(), Some(TREASURY));
    assert_eq!(client.fee_bps(), 0);
}

#[test]
fn any_fee_rate_is_stored_but_tips_fail_above_whole() {
    let mut client = Linkora::new();
    client.initialize(1, 2, 10_001).unwrap();
    assert_eq!(client.fee_bps(), 10_001);
    let id = client.create_post(3, bytes("x"), 0).unwrap().id;
    assert_eq!(client.tip(4, id, 9, 100), Err(ContractError::FeeTooHigh));
    assert_eq!(client.get_post(id).unwrap().tip_total, 0);
    client.set_fee(1, 10_000).unwrap();
    let r = client.tip(4, id, 9, 100).unwrap();
    assert_eq!(r.author_payment.amount, 0);
    assert_eq!(r.fee_payment.unwrap().amount, 100);
    client.set_fee(1, u32::MAX).unwrap();
    assert_eq!(client.fee_bps(), u32::MAX);
    assert_eq!(client.tip(4, id, 9, 100), Err(ContractError::FeeTooHigh));
}

#[test]
fn settings_need_initialization() {
    let mut client = Linkora::new();
    assert_eq!(client.set_fee(1, 100), Err(ContractError::NotInitialized));
    assert_eq!(client.set_treasury(1, 7), Err(ContractError::NotInitialized));
    assert!(matches!(client.upgrade(1, [1u8; 32]), Err(ContractError::NotInitialized)));
    assert_eq!(client.fee_bps(), 0);
    assert_eq!(client.treasury(), None);
    client.initialize(1, 2, 0).unwrap();
    client.set_treasury(1, 7).unwrap();
    assert_eq!(client.treasury(), Some(7));
    assert_eq!(client.upgrade(1, [3u8; 32]).unwrap().new_wasm_hash, [3u8; 32]);
}

#[test]
fn only_the_admin_changes_settings() {
    let mut client = Linkora::new();
    client.initialize(1, 2, 100).unwrap();
    assert_eq!(client.set_fee(5, 300), Err(ContractError::NotAdmin));
    assert_eq!(client.set_treasury(5, 9), Err(ContractError::NotAdmin));
    assert!(matches!(client.upgrade(5, [0u8; 32]), Err(ContractError::NotAdmin)));
    assert_eq!((client.fee_bps(), client.treasury(), client.admin()), (100, Some(2), Some(1)));
    client.set_fee(1, 300).unwrap();
    assert_eq!((client.fee_bps(), client.treasury()), (300, Some(2)));
}

#[test]
fn zero_fee_tips_go_wholly_to_the_author() {
    let (mut client, _, treasury) = setup_contract();
    let id = client.create_post(1, bytes("free"), 0).unwrap().id;
    client.follow(2, 1).unwrap();
    client.like_post(2, id).unwrap();
    client.set_profile(2, bytes("fan"), 3).unwrap();
    assert_eq!(client.fee_bps(), 0);
    let r = client.tip(2, id, 9, 1000).unwrap();
    assert_eq!(r.author_payment, Transfer { token: 9, from: Party::Account(2), to: Party::Account(1), amount: 1000 });
    assert_eq!(r.fee_payment, None);
    assert_eq!(r.event.fee, 0);
    assert_eq!(client.treasury(), Some(treasury));
}

// ── Validation ────────────────────────────────────────────────────────────

#[test]
fn username_rules() {
    assert_eq!(validate_username(b"ab"), Err(UsernameError::TooShort));
    assert_eq!(validate_username(b"abc"), Ok(()));
    assert_eq!(validate_username(b"Alice_99"), Ok(()));
    assert_eq!(validate_username(&[b'a'; 32]), Ok(()));
    assert_eq!(validate_username(&[b'a'; 33]), Err(UsernameError::TooLong));
    assert_eq!(validate_username(b"bad name"), Err(UsernameError::InvalidCharacter));
    assert_eq!(validate_username(b"caf\xc3\xa9"), Err(UsernameError::InvalidCharacter));
    assert_eq!(validate_username(b"a-b"), Err(UsernameError::InvalidCharacter));
}

#[test]
fn content_rules() {
    assert_eq!(validate_content(b""), Err(ContentError::Empty));
    assert_eq!(validate_content(b"x"), Ok(()));
    assert_eq!(validate_content(&[b'x'; 280]), Ok(()));
    assert_eq!(validate_content(&[b'x'; 281]), Err(ContentError::TooLong));
}

#[test]
fn invalid_profile_is_refused_and_nothing_stored() {
    let (mut client, _, _) = setup_contract();
    assert!(matches!(
        client.set_profile(1, bytes("al"), 2),
        Err(ContractError::InvalidUsername(UsernameError::TooShort))
    ));
    assert!(client.get_profile(1).is_none());
    assert_eq!(client.profile_count(), 0);
}

#[test]
fn profile_event_reports_user_and_name() {
    let (mut client, _, _) = setup_contract();
    let ev = client.set_profile(5, bytes("carol"), 6).unwrap();
    assert_eq!(ev.user, 5);
    assert_eq!(ev.username, bytes("carol"));
    let p = client.get_profile(5).unwrap();
    assert_eq!(p.address, 5);
    assert_eq!(p.creator_token, 6);
}

#[test]
fn invalid_content_is_refused() {
    let (mut client, _, _) = setup_contract();
    assert!(matches!(
        client.create_post(1, Vec::new(), 0),
        Err(ContractError::InvalidContent(ContentError::Empty))
    ));
    assert_eq!(client.get_post_count(), 0);
}

// ── Social graph ──────────────────────────────────────────────────────────

#[test]
fn follow_twice_is_follow_once() {
    let (mut client, _, _) = setup_contract();
    assert_eq!(client.follow(1, 2), Ok(FollowEvent { follower: 1, followee: 2 }));
    assert_eq!(client.follow(1, 2), Ok(FollowEvent { follower: 1, followee: 2 }));
    assert_eq!(client.get_following(1), vec![2]);
    assert_eq!(client.get_followers(2), vec![1]);
}

#[test]
fn lists_keep_order_and_unfollow_removes_one() {
    let (mut client, _, _) = setup_contract();
    client.follow(1, 2).unwrap();
    client.follow(1, 3).unwrap();
    client.follow(1, 4).unwrap();
    client.follow(5, 3).unwrap();
    assert_eq!(client.get_following(1), vec![2, 3, 4]);
    assert_eq!(client.get_followers(3), vec![1, 5]);
    client.unfollow(1, 3);
    assert_eq!(client.get_following(1), vec![2, 4]);
    assert_eq!(client.get_followers(3), vec![5]);
    assert!(!client.is_following(1, 3));
    // Unfollowing someone not followed changes nothing.
    client.unfollow(1, 3);
    assert_eq!(client.get_following(1), vec![2, 4]);
}

#[test]
fn unblock_lifts_the_block() {
    let (mut client, _, _) = setup_contract();
    client.block_user(2, 1);
    assert_eq!(client.follow(1, 2), Err(ContractError::Blocked));
    assert!(client.get_following(1).is_empty());
    // The block is one-way.
    assert!(client.follow(2, 1).is_ok());
    client.unblock_user(2, 1);
    assert!(!client.is_blocked(2, 1));
    assert!(client.follow(1, 2).is_ok());
    assert_eq!(client.get_following(1), vec![2]);
}

// ── Posts and likes ───────────────────────────────────────────────────────

#[test]
fn create_post_reports_id_and_author() {
    let (mut client, _, _) = setup_contract();
    assert_eq!(client.create_post(9, bytes("hello"), 5), Ok(PostCreatedEvent { id: 1, author: 9 }));
    let post = client.get_post(1).unwrap();
    assert_eq!(post.content, bytes("hello"));
    assert_eq!(post.like_count, 0);
    assert_eq!(post.tip_total, 0);
}

#[test]
fn delete_post_rules() {
    let (mut client, _, _) = setup_contract();
    let id = client.create_post(1, bytes("mine"), 0).unwrap().id;
    assert_eq!(client.delete_post(2, id), Err(ContractError::NotPostAuthor));
    assert!(client.get_post(id).is_some());
    let ev = client.delete_post(1, id).unwrap();
    assert_eq!((ev.post_id, ev.author), (id, 1));
    assert!(client.get_post(id).is_none());
    // Ids are never reused.
    assert_eq!(client.get_post_count(), 1);
    assert_eq!(client.create_post(1, bytes("again"), 0).unwrap().id, 2);
}

#[test]
fn like_missing_post_is_refused() {
    let (mut client, _, _) = setup_contract();
    assert_eq!(client.like_post(1, 7), Err(ContractError::PostNotFound));
    assert!(!client.has_liked(1, 7));
    assert_eq!(client.get_like_count(7), 0);
}

#[test]
fn like_count_is_number_of_likers() {
    let (mut client, _, _) = setup_contract();
    let id = client.create_post(1, bytes("popular"), 0).unwrap().id;
    for user in [2u64, 3, 4, 3, 2] {
        client.like_post(user, id).unwrap();
    }
    assert_eq!(client.get_like_count(id), 3);
}

// ── Tips ──────────────────────────────────────────────────────────────────

#[test]
fn tip_without_fee_pays_author_only() {
    let (mut client, _, _) = setup_contract();
    let id = client.create_post(1, bytes("tip me"), 0).unwrap().id;
    let r = client.tip(2, id, 9, 40).unwrap();
    assert_eq!(r.fee_payment, None);
    assert_eq!(
        r.author_payment,
        Transfer { token: 9, from: Party::Account(2), to: Party::Account(1), amount: 40 }
    );
    assert_eq!((r.event.amount, r.event.fee), (40, 0));
}

#[test]
fn tip_before_initialization_has_no_fee() {
    let mut client = Linkora::new();
    let id = client.create_post(1, bytes("early"), 0).unwrap().id;
    let r = client.tip(2, id, 9, 40).unwrap();
    assert_eq!(r.fee_payment, None);
    assert_eq!(r.author_payment.amount, 40);
}

#[test]
fn tip_refusals() {
    let mut client = Linkora::new();
    client.initialize(ADMIN, TREASURY, 250).unwrap();
    let id = client.create_post(1, bytes("x"), 0).unwrap().id;
    assert_eq!(client.tip(2, id, 9, 0).unwrap_err(), ContractError::NonPositiveTip);
    assert_eq!(client.tip(2, id, 9, -5).unwrap_err(), ContractError::NonPositiveTip);
    assert_eq!(client.tip(2, 42, 9, 10).unwrap_err(), ContractError::PostNotFound);
    client.block_user(1, 2);
    assert_eq!(client.tip(2, id, 9, 10).unwrap_err(), ContractError::Blocked);
    assert_eq!(client.get_post(id).unwrap().tip_total, 0);
}

#[test]
fn tips_accumulate() {
    let mut client = Linkora::new();
    client.initialize(ADMIN, TREASURY, 250).unwrap();
    let id = client.create_post(1, bytes("x"), 0).unwrap().id;
    client.tip(2, id, 9, 1000).unwrap();
    let small = client.tip(3, id, 9, 39).unwrap();
    // 39 * 250 / 10000 = 0.975, rounded down to 0: no fee payment.
    assert_eq!(small.fee_payment, None);
    assert_eq!(small.author_payment.amount, 39);
    assert_eq!(client.get_post(id).unwrap().tip_total, 1039);
}

#[test]
fn fee_split_values() {
    assert_eq!(split_tip(1000, 250), (25, 975));
    assert_eq!(split_tip(1000, 0), (0, 1000));
    assert_eq!(split_tip(1000, 10_000), (1000, 0));
    assert_eq!(split_tip(39, 250), (0, 39));
    assert_eq!(split_tip(40, 250), (1, 39));
    assert_eq!(split_tip(12_345, 333), (411, 11_934));
    let big = i128::MAX;
    let (fee, net) = split_tip(big, 10_000);
    assert_eq!((fee, net), (big, 0));
    let (fee, net) = split_tip(big, 5_000);
    assert_eq!(fee, big / 2);
    assert_eq!(fee + net, big);
}

// ── Pools ─────────────────────────────────────────────────────────────────

#[test]
fn create_pool_refusals() {
    let (mut client, _, _) = setup_contract();
    assert_eq!(client.create_pool(1, 9, vec![], 1), Err(ContractError::PoolWithoutAdmins));
    assert_eq!(client.create_pool(1, 9, vec![5], 0), Err(ContractError::InvalidThreshold));
    assert_eq!(client.create_pool(1, 9, vec![5, 6], 3), Err(ContractError::InvalidThreshold));
    assert!(client.get_pool(1).is_none());
    client.create_pool(1, 9, vec![5, 6], 2).unwrap();
    assert_eq!(client.create_pool(1, 9, vec![7], 1), Err(ContractError::PoolAlreadyExists));
    let pool = client.get_pool(1).unwrap();
    assert_eq!((pool.token, pool.balance, pool.threshold), (9, 0, 2));
    assert_eq!(pool.admins, vec![5, 6]);
}

#[test]
fn deposit_and_withdraw_transfers() {
    let (mut client, _, _) = setup_contract();
    client.create_pool(1, 9, vec![5, 6], 1).unwrap();
    assert_eq!(
        client.pool_deposit(3, 1, 9, 70),
        Ok(Transfer { token: 9, from: Party::Account(3), to: Party::Contract, amount: 70 })
    );
    assert_eq!(
        client.pool_withdraw(&vec![6], 1, 30, 8),
        Ok(Transfer { token: 9, from: Party::Contract, to: Party::Account(8), amount: 30 })
    );
    assert_eq!(client.get_pool(1).unwrap().balance, 40);
    // Withdrawing what was deposited leaves nothing.
    client.pool_withdraw(&vec![5], 1, 40, 8).unwrap();
    assert_eq!(client.get_pool(1).unwrap().balance, 0);
}

#[test]
fn withdraw_refusals() {
    let (mut client, _, _) = setup_contract();
    client.create_pool(1, 9, vec![5, 6], 2).unwrap();
    client.pool_deposit(3, 1, 9, 100).unwrap();
    assert_eq!(client.pool_withdraw(&vec![5, 6], 1, 0, 8), Err(ContractError::NonPositiveWithdrawal));
    assert_eq!(client.pool_withdraw(&vec![5, 6], 2, 10, 8), Err(ContractError::PoolNotFound));
    // The same admin twice counts once; a stranger does not count.
    assert_eq!(client.pool_withdraw(&vec![5, 5], 1, 10, 8), Err(ContractError::InsufficientSigners));
    assert_eq!(client.pool_withdraw(&vec![5, 7], 1, 10, 8), Err(ContractError::InsufficientSigners));
    assert_eq!(client.pool_withdraw(&vec![6, 5], 1, 101, 8), Err(ContractError::InsufficientPoolBalance));
    assert_eq!(client.get_pool(1).unwrap().balance, 100);
    assert!(client.pool_withdraw(&vec![7, 6, 5], 1, 100, 8).is_ok());
}

#[test]
fn deposit_into_unknown_pool_opens_it_without_admins() {
    let (mut client, _, _) = setup_contract();
    assert_eq!(client.pool_deposit(3, 4, 9, 0), Err(ContractError::NonPositiveDeposit));
    assert!(client.get_pool(4).is_none());
    client.pool_deposit(3, 4, 9, 25).unwrap();
    let pool = client.get_pool(4).unwrap();
    assert_eq!((pool.token, pool.balance), (9, 25));
    assert!(pool.admins.is_empty());
    assert_eq!(client.pool_withdraw(&vec![3], 4, 25, 3), Err(ContractError::InsufficientSigners));
}
