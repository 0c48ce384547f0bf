//! The records the protocol stores, the events it reports and the token
//! movements it asks for.
use vstd::prelude::*;
use crate::validation::{ContentError, UsernameError};

verus! {

/// An account on the ledger, named by a number that the host assigns to
/// each address it has seen.
pub type AccountId = u64;

/// A community pool, named by a number that the host assigns to each pool
/// symbol it has seen.
pub type PoolId = u64;

/// A creator profile.
#[derive(Debug)]
pub struct Profile {
    pub address: AccountId,
    pub username: Vec<u8>,
    pub creator_token: AccountId,
}

/// What a [`Profile`] holds, with the username as a sequence of bytes.
pub struct ProfileView {
    pub address: AccountId,
    pub username: Seq<u8>,
    pub creator_token: AccountId,
}

impl View for Profile {
    type V = ProfileView;

    open spec fn view(&self) -> ProfileView {
        ProfileView { address: self.address, username: self.username@, creator_token: self.creator_token }
    }
}

/// A post on the board.
#[derive(Debug)]
pub struct Post {
    pub id: u64,
    pub author: AccountId,
    pub content: Vec<u8>,
    pub tip_total: i128,
    pub timestamp: u64,
    pub like_count: u64,
}

/// What a [`Post`] holds, with the content as a sequence of bytes.
pub struct PostView {
    pub id: u64,
    pub author: AccountId,
    pub content: Seq<u8>,
    pub tip_total: i128,
    pub timestamp: u64,
    pub like_count: u64,
}

impl View for Post {
    type V = PostView;

    open spec fn view(&self) -> PostView {
        PostView {
            id: self.id,
            author: self.author,
            content: self.content@,
            tip_total: self.tip_total,
            timestamp: self.timestamp,
            like_count: self.like_count,
        }
    }
}

/// A community pool: funds in one token, released to a recipient when
/// at least `threshold` distinct admins sign.
#[derive(Debug)]
pub struct Pool {
    pub token: AccountId,
    pub balance: i128,
    pub admins: Vec<AccountId>,
    pub threshold: u32,
}

/// What a [`Pool`] holds, with the admins as a sequence.
pub struct PoolView {
    pub token: AccountId,
    pub balance: i128,
    pub admins: Seq<AccountId>,
    pub threshold: u32,
}

impl View for Pool {
    type V = PoolView;

    open spec fn view(&self) -> PoolView {
        PoolView { token: self.token, balance: self.balance, admins: self.admins@, threshold: self.threshold }
    }
}

/// The protocol's settings, fixed at initialization and then changed by
/// the admin.
#[derive(Debug, Clone, Copy, PartialEq, Eq, Structural)]
pub struct Config {
    pub admin: AccountId,
    pub treasury: AccountId,
    pub fee_bps: u32,
}

/// One side of a token movement: an account, or the contract itself
/// (which holds the pools' funds).
#[derive(Debug, Clone, Copy, PartialEq, Eq, Structural)]
pub enum Party {
    Account(AccountId),
    Contract,
}

/// A token movement that the host performs for an operation.
#[derive(Debug, Clone, Copy, PartialEq, Eq, Structural)]
pub struct Transfer {
    pub token: AccountId,
    pub from: Party,
    pub to: Party,
    pub amount: i128,
}

/// Reported when a profile is created or updated.
#[derive(Debug)]
pub struct ProfileSetEvent {
    pub user: AccountId,
    pub username: Vec<u8>,
}

/// Reported on every successful follow request.
#[derive(Debug, Clone, Copy, PartialEq, Eq, Structural)]
pub struct FollowEvent {
    pub follower: AccountId,
    pub followee: AccountId,
}

/// Reported when a post is created.
#[derive(Debug, Clone, Copy, PartialEq, Eq, Structural)]
pub struct PostCreatedEvent {
    pub id: u64,
    pub author: AccountId,
}

/// Reported when a post is tipped: the gross amount and the protocol fee.
#[derive(Debug, Clone, Copy, PartialEq, Eq, Structural)]
pub struct TipEvent {
    pub tipper: AccountId,
    pub post_id: u64,
    pub amount: i128,
    pub fee: i128,
}

/// Reported when a post is deleted.
#[derive(Debug, Clone, Copy, PartialEq, Eq, Structural)]
pub struct PostDeleted {
    pub post_id: u64,
    pub author: AccountId,
}

/// Reported when the contract code is replaced.
#[derive(Debug, Clone, Copy)]
pub struct ContractUpgraded {
    pub new_wasm_hash: [u8; 32],
}

/// What a tip produces: the event, the payment to the author and, when
/// the fee is positive, the payment to the treasury.
#[derive(Debug, Clone, Copy, PartialEq, Eq, Structural)]
pub struct TipReceipt {
    pub event: TipEvent,
    pub author_payment: Transfer,
    pub fee_payment: Option<Transfer>,
}

/// Why an operation was refused. The state is left unchanged.
#[derive(Debug, Clone, Copy, PartialEq, Eq, Structural)]
pub enum ContractError {
    AlreadyInitialized,
    NotInitialized,
    NotAdmin,
    FeeTooHigh,
    InvalidUsername(UsernameError),
    InvalidContent(ContentError),
    Blocked,
    PostNotFound,
    PostDoesNotExist(u64),
    NotPostAuthor,
    NonPositiveTip,
    NonPositiveDeposit,
    NonPositiveWithdrawal,
    PoolWithoutAdmins,
    InvalidThreshold,
    PoolAlreadyExists,
    PoolNotFound,
    InsufficientSigners,
    InsufficientPoolBalance,
}

} // verus!
