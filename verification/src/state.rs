//! The protocol's state as mathematical values, and what each operation
//! makes of it.
use vstd::prelude::*;
use crate::fees::{fee_share, MAX_FEE_BPS};
use crate::types::{
    AccountId, Config, ContractError, Party, PoolId, PoolView, PostView, ProfileView, TipEvent, TipReceipt,
    Transfer,
};
use crate::validation::{content_verdict, username_verdict};

verus! {

#[verifier::ext_equal]
/// The whole protocol state. Absent entries of the per-account maps stand
/// for empty lists and sets.
pub struct LinkoraState {
    pub config: Option<Config>,
    pub profiles: Map<AccountId, ProfileView>,
    /// For each account, the accounts it follows, oldest first.
    pub following: Map<AccountId, Seq<AccountId>>,
    /// For each account, the accounts that follow it, oldest first.
    pub followers: Map<AccountId, Seq<AccountId>>,
    /// For each account, the accounts it has blocked.
    pub blocks: Map<AccountId, Set<AccountId>>,
    pub posts: Map<u64, PostView>,
    /// The number of posts ever created; also the id of the newest one.
    pub post_count: u64,
    /// For each post id, the accounts that have liked it.
    pub likes: Map<u64, Set<AccountId>>,
    pub pools: Map<PoolId, PoolView>,
}

/// The position of the first `x` in `s`.
pub open spec fn first_index(s: Seq<AccountId>, x: AccountId) -> int {
    choose|i: int| 0 <= i < s.len() && s[i] == x && forall|j: int| 0 <= j < i ==> s[j] != x
}

/// The position of the first `x` in `s` is the one position that holds
/// `x` with no `x` before it.
pub proof fn lemma_first_index(s: Seq<AccountId>, x: AccountId, i: int)
    requires
        0 <= i < s.len(),
        s[i] == x,
        forall|j: int| 0 <= j < i ==> s[j] != x,
    ensures
        first_index(s, x) == i,
{
    let k = first_index(s, x);
    assert(0 <= k < s.len() && s[k] == x && forall|j: int| 0 <= j < k ==> s[j] != x);
    if k < i {
        assert(s[k] != x);
    } else if k > i {
        assert(s[i] != x);
    }
}

/// `s` without its first `x`; `s` itself when `x` does not occur.
pub open spec fn without_first(s: Seq<AccountId>, x: AccountId) -> Seq<AccountId> {
    if s.contains(x) {
        s.remove(first_index(s, x))
    } else {
        s
    }
}

/// The distinct signers that are admins of a pool.
pub open spec fn approvals(signers: Seq<AccountId>, admins: Seq<AccountId>) -> Set<AccountId> {
    signers.to_set().filter(|s: AccountId| admins.contains(s))
}

impl LinkoraState {
    /// The state of a freshly deployed contract.
    pub open spec fn empty() -> LinkoraState {
        LinkoraState {
            config: None,
            profiles: Map::empty(),
            following: Map::empty(),
            followers: Map::empty(),
            blocks: Map::empty(),
            posts: Map::empty(),
            post_count: 0,
            likes: Map::empty(),
            pools: Map::empty(),
        }
    }

    pub open spec fn following_of(self, a: AccountId) -> Seq<AccountId> {
        if self.following.contains_key(a) { self.following[a] } else { Seq::empty() }
    }

    pub open spec fn followers_of(self, a: AccountId) -> Seq<AccountId> {
        if self.followers.contains_key(a) { self.followers[a] } else { Seq::empty() }
    }

    pub open spec fn blocked_by(self, blocker: AccountId) -> Set<AccountId> {
        if self.blocks.contains_key(blocker) { self.blocks[blocker] } else { Set::empty() }
    }

    pub open spec fn is_blocked(self, blocker: AccountId, blocked: AccountId) -> bool {
        self.blocked_by(blocker).contains(blocked)
    }

    pub open spec fn likers_of(self, post_id: u64) -> Set<AccountId> {
        if self.likes.contains_key(post_id) { self.likes[post_id] } else { Set::empty() }
    }

    pub open spec fn has_liked(self, user: AccountId, post_id: u64) -> bool {
        self.likers_of(post_id).contains(user)
    }

    /// The fee rate in force: none before initialization.
    pub open spec fn fee_bps(self) -> u32 {
        match self.config {
            Some(c) => c.fee_bps,
            None => 0,
        }
    }

    pub open spec fn like_count_of(self, post_id: u64) -> u64 {
        if self.posts.contains_key(post_id) { self.posts[post_id].like_count } else { 0 }
    }

    // ── Settings ──────────────────────────────────────────────────────────

    /// The admin, when the contract is initialized.
    pub open spec fn admin(self) -> Option<AccountId> {
        match self.config {
            Some(c) => Some(c.admin),
            None => None,
        }
    }

    /// The treasury, when the contract is initialized.
    pub open spec fn treasury(self) -> Option<AccountId> {
        match self.config {
            Some(c) => Some(c.treasury),
            None => None,
        }
    }

    /// Whether `caller` may change the settings: only the admin, once the
    /// contract is initialized.
    pub open spec fn admin_check(self, caller: AccountId) -> Result<(), ContractError> {
        match self.config {
            None => Err(ContractError::NotInitialized),
            Some(c) => if caller != c.admin { Err(ContractError::NotAdmin) } else { Ok(()) },
        }
    }

    /// Any fee rate is accepted; a rate above 100% makes tips fail instead.
    pub open spec fn after_initialize(self, admin: AccountId, treasury: AccountId, fee_bps: u32) -> Result<LinkoraState, ContractError> {
        if self.config is Some {
            Err(ContractError::AlreadyInitialized)
        } else {
            Ok(LinkoraState { config: Some(Config { admin, treasury, fee_bps }), ..self })
        }
    }

    pub open spec fn after_set_fee(self, caller: AccountId, fee_bps: u32) -> Result<LinkoraState, ContractError> {
        match self.admin_check(caller) {
            Err(e) => Err(e),
            Ok(_) => Ok(LinkoraState { config: Some(Config { fee_bps, ..self.config->Some_0 }), ..self }),
        }
    }

    pub open spec fn after_set_treasury(self, caller: AccountId, treasury: AccountId) -> Result<LinkoraState, ContractError> {
        match self.admin_check(caller) {
            Err(e) => Err(e),
            Ok(_) => Ok(LinkoraState { config: Some(Config { treasury, ..self.config->Some_0 }), ..self }),
        }
    }

    // ── Profiles ──────────────────────────────────────────────────────────

    pub open spec fn after_set_profile(self, user: AccountId, username: Seq<u8>, creator_token: AccountId) -> Result<LinkoraState, ContractError> {
        match username_verdict(username) {
            Err(e) => Err(ContractError::InvalidUsername(e)),
            Ok(_) => Ok(LinkoraState {
                profiles: self.profiles.insert(user, ProfileView { address: user, username, creator_token }),
                ..self
            }),
        }
    }

    // ── Social graph ──────────────────────────────────────────────────────

    pub open spec fn after_follow(self, follower: AccountId, followee: AccountId) -> Result<LinkoraState, ContractError> {
        if self.is_blocked(followee, follower) {
            Err(ContractError::Blocked)
        } else if self.following_of(follower).contains(followee) {
            Ok(self)
        } else {
            Ok(LinkoraState {
                following: self.following.insert(follower, self.following_of(follower).push(followee)),
                followers: self.followers.insert(followee, self.followers_of(followee).push(follower)),
                ..self
            })
        }
    }

    pub open spec fn after_unfollow(self, follower: AccountId, followee: AccountId) -> LinkoraState {
        if self.following_of(follower).contains(followee) {
            LinkoraState {
                following: self.following.insert(follower, without_first(self.following_of(follower), followee)),
                followers: if self.followers_of(followee).contains(follower) {
                    self.followers.insert(followee, without_first(self.followers_of(followee), follower))
                } else {
                    self.followers
                },
                ..self
            }
        } else {
            self
        }
    }

    pub open spec fn after_block(self, blocker: AccountId, blocked: AccountId) -> LinkoraState {
        LinkoraState { blocks: self.blocks.insert(blocker, self.blocked_by(blocker).insert(blocked)), ..self }
    }

    pub open spec fn after_unblock(self, blocker: AccountId, blocked: AccountId) -> LinkoraState {
        LinkoraState { blocks: self.blocks.insert(blocker, self.blocked_by(blocker).remove(blocked)), ..self }
    }

    // ── Posts ─────────────────────────────────────────────────────────────

    /// The id the next post receives.
    pub open spec fn next_post_id(self) -> u64 {
        (self.post_count + 1) as u64
    }

    pub open spec fn after_create_post(self, author: AccountId, content: Seq<u8>, timestamp: u64) -> Result<LinkoraState, ContractError> {
        match content_verdict(content) {
            Err(e) => Err(ContractError::InvalidContent(e)),
            Ok(_) => {
                let id = self.next_post_id();
                Ok(LinkoraState {
                    posts: self.posts.insert(id, PostView { id, author, content, tip_total: 0, timestamp, like_count: 0 }),
                    post_count: id,
                    ..self
                })
            },
        }
    }

    pub open spec fn after_delete_post(self, author: AccountId, post_id: u64) -> Result<LinkoraState, ContractError> {
        if !self.posts.contains_key(post_id) {
            Err(ContractError::PostDoesNotExist(post_id))
        } else if self.posts[post_id].author != author {
            Err(ContractError::NotPostAuthor)
        } else {
            Ok(LinkoraState { posts: self.posts.remove(post_id), ..self })
        }
    }

    pub open spec fn after_like(self, user: AccountId, post_id: u64) -> Result<LinkoraState, ContractError> {
        if self.has_liked(user, post_id) {
            Ok(self)
        } else if !self.posts.contains_key(post_id) {
            Err(ContractError::PostNotFound)
        } else {
            let p = self.posts[post_id];
            Ok(LinkoraState {
                posts: self.posts.insert(post_id, PostView { like_count: (p.like_count + 1) as u64, ..p }),
                likes: self.likes.insert(post_id, self.likers_of(post_id).insert(user)),
                ..self
            })
        }
    }

    pub open spec fn after_tip(self, tipper: AccountId, post_id: u64, amount: i128) -> Result<LinkoraState, ContractError> {
        if amount <= 0 {
            Err(ContractError::NonPositiveTip)
        } else if !self.posts.contains_key(post_id) {
            Err(ContractError::PostNotFound)
        } else if self.is_blocked(self.posts[post_id].author, tipper) {
            Err(ContractError::Blocked)
        } else if self.fee_bps() > MAX_FEE_BPS {
            Err(ContractError::FeeTooHigh)
        } else {
            let p = self.posts[post_id];
            Ok(LinkoraState {
                posts: self.posts.insert(post_id, PostView { tip_total: (p.tip_total + amount) as i128, ..p }),
                ..self
            })
        }
    }

    /// The protocol's share of a tip of `amount` at the rate in force.
    pub open spec fn tip_fee(self, amount: i128) -> i128 {
        fee_share(amount as int, self.fee_bps() as int) as i128
    }

    /// What a successful tip reports and pays: the author receives the
    /// amount less the fee; the treasury receives the fee when it is positive.
    pub open spec fn tip_receipt(self, tipper: AccountId, post_id: u64, token: AccountId, amount: i128) -> TipReceipt {
        let fee = self.tip_fee(amount);
        TipReceipt {
            event: TipEvent { tipper, post_id, amount, fee },
            author_payment: Transfer {
                token,
                from: Party::Account(tipper),
                to: Party::Account(self.posts[post_id].author),
                amount: (amount - fee) as i128,
            },
            fee_payment: match self.config {
                Some(c) => if fee > 0 {
                    Some(Transfer { token, from: Party::Account(tipper), to: Party::Account(c.treasury), amount: fee })
                } else {
                    None
                },
                None => None,
            },
        }
    }

    // ── Pools ─────────────────────────────────────────────────────────────

    pub open spec fn after_create_pool(self, pool_id: PoolId, token: AccountId, admins: Seq<AccountId>, threshold: u32) -> Result<LinkoraState, ContractError> {
        if admins.len() == 0 {
            Err(ContractError::PoolWithoutAdmins)
        } else if threshold == 0 || threshold > admins.len() {
            Err(ContractError::InvalidThreshold)
        } else if self.pools.contains_key(pool_id) {
            Err(ContractError::PoolAlreadyExists)
        } else {
            Ok(LinkoraState {
                pools: self.pools.insert(pool_id, PoolView { token, balance: 0, admins, threshold }),
                ..self
            })
        }
    }

    /// The pool a deposit lands in: the existing one, or a new pool in the
    /// deposited token with no admins.
    pub open spec fn pool_for_deposit(self, pool_id: PoolId, token: AccountId) -> PoolView {
        if self.pools.contains_key(pool_id) {
            self.pools[pool_id]
        } else {
            PoolView { token, balance: 0, admins: Seq::empty(), threshold: 1 }
        }
    }

    /// The deposit is credited to the pool whatever token it was paid in,
    /// also when that differs from the pool's own token.
    pub open spec fn after_deposit(self, pool_id: PoolId, token: AccountId, amount: i128) -> Result<LinkoraState, ContractError> {
        if amount <= 0 {
            Err(ContractError::NonPositiveDeposit)
        } else {
            let p = self.pool_for_deposit(pool_id, token);
            Ok(LinkoraState {
                pools: self.pools.insert(pool_id, PoolView { balance: (p.balance + amount) as i128, ..p }),
                ..self
            })
        }
    }

    pub open spec fn after_withdraw(self, signers: Seq<AccountId>, pool_id: PoolId, amount: i128) -> Result<LinkoraState, ContractError> {
        if amount <= 0 {
            Err(ContractError::NonPositiveWithdrawal)
        } else if !self.pools.contains_key(pool_id) {
            Err(ContractError::PoolNotFound)
        } else if approvals(signers, self.pools[pool_id].admins).len() < self.pools[pool_id].threshold {
            Err(ContractError::InsufficientSigners)
        } else if self.pools[pool_id].balance < amount {
            Err(ContractError::InsufficientPoolBalance)
        } else {
            let p = self.pools[pool_id];
            Ok(LinkoraState {
                pools: self.pools.insert(pool_id, PoolView { balance: (p.balance - amount) as i128, ..p }),
                ..self
            })
        }
    }

    // ── What every operation keeps ────────────────────────────────────────

    /// `b` is in `a`'s following list exactly when `a` is in `b`'s
    /// followers list, and no list names an account twice.
    pub open spec fn graph_consistent(self) -> bool {
        &&& forall|a: AccountId, b: AccountId|
            #[trigger] self.following_of(a).contains(b) <==> #[trigger] self.followers_of(b).contains(a)
        &&& forall|a: AccountId| #[trigger] self.following_of(a).no_duplicates()
        &&& forall|a: AccountId| #[trigger] self.followers_of(a).no_duplicates()
    }

    /// Every post sits under its own id, no later than the newest id; every
    /// post's like count is the number of accounts that liked it; likes
    /// only name posts that were created.
    pub open spec fn posts_consistent(self) -> bool {
        &&& forall|id: u64| #[trigger] self.posts.contains_key(id) ==>
            1 <= id <= self.post_count && self.posts[id].id == id
        &&& forall|id: u64| #[trigger] self.likes.contains_key(id) ==>
            1 <= id <= self.post_count && self.likes[id].finite()
        &&& forall|id: u64| #[trigger] self.posts.contains_key(id) ==>
            self.posts[id].like_count == self.likers_of(id).len()
    }

    /// No pool balance is negative, and every pool needs at least one signer.
    pub open spec fn pools_consistent(self) -> bool {
        forall|id: PoolId| #[trigger] self.pools.contains_key(id) ==>
            self.pools[id].balance >= 0 && self.pools[id].threshold >= 1
    }

    /// The invariant of the protocol state.
    pub open spec fn valid(self) -> bool {
        &&& self.profiles.dom().finite()
        &&& self.graph_consistent()
        &&& self.posts_consistent()
        &&& self.pools_consistent()
    }
}

} // verus!
