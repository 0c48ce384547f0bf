//! The protocol's operations on its stored state.
use vstd::prelude::*;
use std::collections::{HashMap, HashSet};
use crate::fees::{split_tip, MAX_FEE_BPS};
use crate::state::{approvals, first_index, lemma_first_index, without_first, LinkoraState};
use crate::types::{
    AccountId, Config, ContractError, ContractUpgraded, FollowEvent, Party, Pool, PoolId, Post,
    PostCreatedEvent, PostDeleted, Profile, ProfileSetEvent, TipEvent, TipReceipt, Transfer,
};
use crate::validation::{content_verdict, validate_content, validate_username};

verus! {

broadcast use vstd::std_specs::hash::group_hash_axioms;

/// The stored state of the protocol. The host loads it before an operation
/// and stores it back after a successful one.
pub struct Linkora {
    pub config: Option<Config>,
    pub profiles: HashMap<AccountId, Profile>,
    pub following: HashMap<AccountId, Vec<AccountId>>,
    pub followers: HashMap<AccountId, Vec<AccountId>>,
    pub blocks: HashMap<AccountId, HashSet<AccountId>>,
    pub posts: HashMap<u64, Post>,
    pub post_count: u64,
    pub likes: HashMap<u64, HashSet<AccountId>>,
    pub pools: HashMap<PoolId, Pool>,
}

impl View for Linkora {
    type V = LinkoraState;

    open spec fn view(&self) -> LinkoraState {
        LinkoraState {
            config: self.config,
            profiles: self.profiles@.map_values(|p: Profile| p@),
            following: self.following@.map_values(|v: Vec<AccountId>| v@),
            followers: self.followers@.map_values(|v: Vec<AccountId>| v@),
            blocks: self.blocks@.map_values(|s: HashSet<AccountId>| s@),
            posts: self.posts@.map_values(|p: Post| p@),
            post_count: self.post_count,
            likes: self.likes@.map_values(|s: HashSet<AccountId>| s@),
            pools: self.pools@.map_values(|p: Pool| p@),
        }
    }
}

/// A copy of a byte string.
pub fn copy_bytes(v: &Vec<u8>) -> (r: Vec<u8>)
    ensures
        r@ == v@,
{
    let r = v.clone();
    assert(r@ =~= v@);
    r
}

/// A copy of a list of accounts.
pub fn copy_ids(v: &Vec<AccountId>) -> (r: Vec<AccountId>)
    ensures
        r@ == v@,
{
    let r = v.clone();
    assert(r@ =~= v@);
    r
}

/// Where `x` first occurs in `v`, if it does.
pub fn position_of(v: &Vec<AccountId>, x: AccountId) -> (r: Option<usize>)
    ensures
        match r {
            Some(i) => v@.contains(x) && i == first_index(v@, x) && i < v@.len(),
            None => !v@.contains(x),
        },
{
    let mut i: usize = 0;
    while i < v.len()
        invariant
            i <= v@.len(),
            forall|j: int| 0 <= j < i ==> v@[j] != x,
        decreases v@.len() - i,
    {
        if v[i] == x {
            proof {
                lemma_first_index(v@, x, i as int);
            }
            return Some(i);
        }
        i = i + 1;
    }
    None
}

/// Whether `x` occurs in `v`.
pub fn contains_id(v: &Vec<AccountId>, x: AccountId) -> (r: bool)
    ensures
        r == v@.contains(x),
{
    position_of(v, x).is_some()
}

/// The number of distinct signers that are admins.
pub fn count_approvals(signers: &Vec<AccountId>, admins: &Vec<AccountId>) -> (r: usize)
    ensures
        r == approvals(signers@, admins@).len(),
        r == signers@.to_set().intersect(admins@.to_set()).len(),
{
    broadcast use vstd::seq_lib::group_seq_properties;
    let mut approved: Vec<AccountId> = Vec::new();
    let mut i: usize = 0;
    assert(signers@.take(0).to_set() =~= Set::<AccountId>::empty());
    assert(approvals(signers@.take(0), admins@) =~= approved@.to_set());
    while i < signers.len()
        invariant
            i <= signers@.len(),
            approved@.no_duplicates(),
            approved@.to_set() == approvals(signers@.take(i as int), admins@),
        decreases signers@.len() - i,
    {
        let s = signers[i];
        let ghost before = approved@;
        let is_admin = contains_id(admins, s);
        let seen = contains_id(&approved, s);
        if is_admin && !seen {
            approved.push(s);
            assert(approved@[approved@.len() - 1] == s);
            assert forall|a: int, b: int| 0 <= a < b < approved@.len() implies approved@[a] != approved@[b] by {
                if b == approved@.len() - 1 {
                    assert(before.contains(approved@[a]));
                }
            }
            proof {
                before.lemma_push_to_set_commute(s);
            }
        }
        assert(signers@.take(i + 1) =~= signers@.take(i as int).push(s));
        proof {
            signers@.take(i as int).lemma_push_to_set_commute(s);
        }
        assert(signers@.take(i + 1).to_set() =~= signers@.take(i as int).to_set().insert(s));
        assert forall|x: AccountId| approved@.to_set().contains(x) <==> approvals(signers@.take(i + 1), admins@).contains(x) by {
            if x == s && admins@.contains(s) {
                assert(approved@.contains(s));
            }
        }
        assert(approved@.to_set() =~= approvals(signers@.take(i + 1), admins@));
        i = i + 1;
    }
    assert(signers@.take(signers@.len() as int) =~= signers@);
    proof {
        approved@.unique_seq_to_set();
        assert(approvals(signers@, admins@) =~= signers@.to_set().intersect(admins@.to_set()));
    }
    approved.len()
}

impl Linkora {
    /// The state of a freshly deployed contract.
    pub fn new() -> (r: Linkora)
        ensures
            r@ == LinkoraState::empty(),
    {
        let r = Linkora {
            config: None,
            profiles: HashMap::new(),
            following: HashMap::new(),
            followers: HashMap::new(),
            blocks: HashMap::new(),
            posts: HashMap::new(),
            post_count: 0,
            likes: HashMap::new(),
            pools: HashMap::new(),
        };
        assert(r@ =~= LinkoraState::empty());
        r
    }

    // ── Settings ──────────────────────────────────────────────────────────

    /// One-time setup: records the admin, the treasury and the fee rate.
    pub fn initialize(&mut self, admin: AccountId, treasury: AccountId, fee_bps: u32) -> (r: Result<(), ContractError>)
        ensures
            match r {
                Ok(_) => old(self)@.after_initialize(admin, treasury, fee_bps) == Ok::<LinkoraState, ContractError>(final(self)@),
                Err(e) => old(self)@.after_initialize(admin, treasury, fee_bps) == Err::<LinkoraState, ContractError>(e)
                    && final(self)@ == old(self)@,
            },
    {
        if self.config.is_some() {
            return Err(ContractError::AlreadyInitialized);
        }
        self.config = Some(Config { admin, treasury, fee_bps });
        assert(self@ =~= old(self)@.after_initialize(admin, treasury, fee_bps)->Ok_0);
        Ok(())
    }

    /// The admin, whose authorization the settings operations need.
    pub fn admin(&self) -> (r: Option<AccountId>)
        ensures
            r == self@.admin(),
    {
        match &self.config {
            Some(c) => Some(c.admin),
            None => None,
        }
    }

    /// The treasury that receives tip fees.
    pub fn treasury(&self) -> (r: Option<AccountId>)
        ensures
            r == self@.treasury(),
    {
        match &self.config {
            Some(c) => Some(c.treasury),
            None => None,
        }
    }

    /// The fee rate in basis points; 0 before initialization.
    pub fn fee_bps(&self) -> (r: u32)
        ensures
            r == self@.fee_bps(),
    {
        match &self.config {
            Some(c) => c.fee_bps,
            None => 0,
        }
    }

    /// Refuses `caller` unless it is the admin of an initialized contract.
    pub fn check_admin(&self, caller: AccountId) -> (r: Result<(), ContractError>)
        ensures
            r == self@.admin_check(caller),
    {
        match &self.config {
            None => Err(ContractError::NotInitialized),
            Some(c) => if caller != c.admin {
                Err(ContractError::NotAdmin)
            } else {
                Ok(())
            },
        }
    }

    /// The admin `caller` changes the fee rate.
    pub fn set_fee(&mut self, caller: AccountId, fee_bps: u32) -> (r: Result<(), ContractError>)
        ensures
            match r {
                Ok(_) => old(self)@.after_set_fee(caller, fee_bps) == Ok::<LinkoraState, ContractError>(final(self)@),
                Err(e) => old(self)@.after_set_fee(caller, fee_bps) == Err::<LinkoraState, ContractError>(e)
                    && final(self)@ == old(self)@,
            },
    {
        match self.check_admin(caller) {
            Err(e) => Err(e),
            Ok(()) => {
                let c = self.config.unwrap();
                self.config = Some(Config { fee_bps, ..c });
                assert(self@ =~= old(self)@.after_set_fee(caller, fee_bps)->Ok_0);
                Ok(())
            },
        }
    }

    /// The admin `caller` changes the treasury that receives fees.
    pub fn set_treasury(&mut self, caller: AccountId, treasury: AccountId) -> (r: Result<(), ContractError>)
        ensures
            match r {
                Ok(_) => old(self)@.after_set_treasury(caller, treasury) == Ok::<LinkoraState, ContractError>(final(self)@),
                Err(e) => old(self)@.after_set_treasury(caller, treasury) == Err::<LinkoraState, ContractError>(e)
                    && final(self)@ == old(self)@,
            },
    {
        match self.check_admin(caller) {
            Err(e) => Err(e),
            Ok(()) => {
                let c = self.config.unwrap();
                self.config = Some(Config { treasury, ..c });
                assert(self@ =~= old(self)@.after_set_treasury(caller, treasury)->Ok_0);
                Ok(())
            },
        }
    }

    /// The admin `caller` approves replacing the contract code. The host
    /// swaps the code and reports the event.
    pub fn upgrade(&self, caller: AccountId, new_wasm_hash: [u8; 32]) -> (r: Result<ContractUpgraded, ContractError>)
        ensures
            match r {
                Ok(ev) => self@.admin_check(caller) is Ok && ev.new_wasm_hash == new_wasm_hash,
                Err(e) => self@.admin_check(caller) == Err::<(), ContractError>(e),
            },
    {
        match self.check_admin(caller) {
            Err(e) => Err(e),
            Ok(()) => Ok(ContractUpgraded { new_wasm_hash }),
        }
    }

    // ── Profiles ──────────────────────────────────────────────────────────

    /// Registers or updates `user`'s profile.
    pub fn set_profile(&mut self, user: AccountId, username: Vec<u8>, creator_token: AccountId) -> (r: Result<ProfileSetEvent, ContractError>)
        ensures
            match r {
                Ok(ev) => old(self)@.after_set_profile(user, username@, creator_token) == Ok::<LinkoraState, ContractError>(final(self)@)
                    && ev.user == user && ev.username@ == username@,
                Err(e) => old(self)@.after_set_profile(user, username@, creator_token) == Err::<LinkoraState, ContractError>(e)
                    && final(self)@ == old(self)@,
            },
    {
        match validate_username(username.as_slice()) {
            Err(e) => return Err(ContractError::InvalidUsername(e)),
            Ok(()) => {},
        }
        let reported = copy_bytes(&username);
        let ghost name = username@;
        self.profiles.insert(user, Profile { address: user, username, creator_token });
        assert(self@ =~= old(self)@.after_set_profile(user, name, creator_token)->Ok_0);
        Ok(ProfileSetEvent { user, username: reported })
    }

    /// The profile of `user`, if one was ever set.
    pub fn get_profile(&self, user: AccountId) -> (r: Option<&Profile>)
        ensures
            match r {
                Some(p) => self@.profiles.contains_key(user) && p@ == self@.profiles[user],
                None => !self@.profiles.contains_key(user),
            },
    {
        self.profiles.get(&user)
    }

    /// The number of accounts that have a profile.
    pub fn profile_count(&self) -> (r: u64)
        ensures
            r == self@.profiles.len(),
    {
        assert(self@.profiles.dom() =~= self.profiles@.dom());
        self.profiles.len() as u64
    }

    // ── Social graph ──────────────────────────────────────────────────────

    /// Whether `blocker` has blocked `blocked`.
    pub fn is_blocked(&self, blocker: AccountId, blocked: AccountId) -> (r: bool)
        ensures
            r == self@.is_blocked(blocker, blocked),
    {
        match self.blocks.get(&blocker) {
            Some(set) => set.contains(&blocked),
            None => false,
        }
    }

    /// `blocker` blocks `blocked`: `blocked` can then neither follow nor
    /// tip `blocker`.
    pub fn block_user(&mut self, blocker: AccountId, blocked: AccountId)
        ensures
            final(self)@ == old(self)@.after_block(blocker, blocked),
    {
        let mut set = match self.blocks.remove(&blocker) {
            Some(set) => set,
            None => HashSet::new(),
        };
        set.insert(blocked);
        self.blocks.insert(blocker, set);
        assert(self@ =~= old(self)@.after_block(blocker, blocked));
    }

    /// `blocker` lifts a block on `blocked`.
    pub fn unblock_user(&mut self, blocker: AccountId, blocked: AccountId)
        ensures
            final(self)@ == old(self)@.after_unblock(blocker, blocked),
    {
        let mut set = match self.blocks.remove(&blocker) {
            Some(set) => set,
            None => HashSet::new(),
        };
        set.remove(&blocked);
        self.blocks.insert(blocker, set);
        assert(self@ =~= old(self)@.after_unblock(blocker, blocked));
    }

    /// Whether `follower` follows `followee`.
    pub fn is_following(&self, follower: AccountId, followee: AccountId) -> (r: bool)
        ensures
            r == self@.following_of(follower).contains(followee),
    {
        match self.following.get(&follower) {
            Some(list) => position_of(list, followee).is_some(),
            None => false,
        }
    }

    /// `follower` follows `followee`. A repeated follow changes nothing but
    /// is still reported; a follower blocked by the followee is refused.
    pub fn follow(&mut self, follower: AccountId, followee: AccountId) -> (r: Result<FollowEvent, ContractError>)
        ensures
            match r {
                Ok(ev) => old(self)@.after_follow(follower, followee) == Ok::<LinkoraState, ContractError>(final(self)@)
                    && ev == (FollowEvent { follower, followee }),
                Err(e) => old(self)@.after_follow(follower, followee) == Err::<LinkoraState, ContractError>(e)
                    && final(self)@ == old(self)@,
            },
    {
        if self.is_blocked(followee, follower) {
            return Err(ContractError::Blocked);
        }
        if !self.is_following(follower, followee) {
            let mut list = match self.following.remove(&follower) {
                Some(list) => list,
                None => Vec::new(),
            };
            list.push(followee);
            self.following.insert(follower, list);
            let mut rev = match self.followers.remove(&followee) {
                Some(rev) => rev,
                None => Vec::new(),
            };
            rev.push(follower);
            self.followers.insert(followee, rev);
        }
        assert(self@ =~= old(self)@.after_follow(follower, followee)->Ok_0);
        Ok(FollowEvent { follower, followee })
    }

    /// `follower` stops following `followee`; nothing happens when it did
    /// not follow.
    pub fn unfollow(&mut self, follower: AccountId, followee: AccountId)
        ensures
            final(self)@ == old(self)@.after_unfollow(follower, followee),
    {
        let ghost pre = self@;
        let found = match self.following.get(&follower) {
            Some(list) => position_of(list, followee),
            None => None,
        };
        if let Some(i) = found {
            let mut list = match self.following.remove(&follower) {
                Some(list) => list,
                None => Vec::new(),
            };
            assert(list@ == pre.following_of(follower));
            list.remove(i);
            assert(list@ == without_first(pre.following_of(follower), followee));
            self.following.insert(follower, list);
            assert(self@.following =~= pre.following.insert(follower, without_first(pre.following_of(follower), followee)));
            let back = match self.followers.get(&followee) {
                Some(rev) => position_of(rev, follower),
                None => None,
            };
            if let Some(j) = back {
                let mut rev = match self.followers.remove(&followee) {
                    Some(rev) => rev,
                    None => Vec::new(),
                };
                assert(rev@ == pre.followers_of(followee));
                rev.remove(j);
                self.followers.insert(followee, rev);
                assert(self@.followers =~= pre.followers.insert(followee, without_first(pre.followers_of(followee), follower)));
            } else {
                assert(!pre.followers_of(followee).contains(follower));
                assert(self@.followers =~= pre.followers);
            }
            assert(self@ =~= pre.after_unfollow(follower, followee));
        } else {
            assert(!pre.following_of(follower).contains(followee));
            assert(self@ =~= pre);
        }
    }

    /// The accounts `user` follows, oldest first.
    pub fn get_following(&self, user: AccountId) -> (r: Vec<AccountId>)
        ensures
            r@ == self@.following_of(user),
    {
        match self.following.get(&user) {
            Some(list) => copy_ids(list),
            None => Vec::new(),
        }
    }

    /// The accounts that follow `user`, oldest first.
    pub fn get_followers(&self, user: AccountId) -> (r: Vec<AccountId>)
        ensures
            r@ == self@.followers_of(user),
    {
        match self.followers.get(&user) {
            Some(list) => copy_ids(list),
            None => Vec::new(),
        }
    }

    // ── Posts ─────────────────────────────────────────────────────────────

    /// Publishes a post by `author` at `timestamp`; ids run 1, 2, 3, ...
    pub fn create_post(&mut self, author: AccountId, content: Vec<u8>, timestamp: u64) -> (r: Result<PostCreatedEvent, ContractError>)
        requires
            content_verdict(content@) is Ok ==> old(self).post_count < u64::MAX,
        ensures
            match r {
                Ok(ev) => old(self)@.after_create_post(author, content@, timestamp) == Ok::<LinkoraState, ContractError>(final(self)@)
                    && ev == (PostCreatedEvent { id: old(self)@.next_post_id(), author }),
                Err(e) => old(self)@.after_create_post(author, content@, timestamp) == Err::<LinkoraState, ContractError>(e)
                    && final(self)@ == old(self)@,
            },
    {
        match validate_content(content.as_slice()) {
            Err(e) => return Err(ContractError::InvalidContent(e)),
            Ok(()) => {},
        }
        let ghost body = content@;
        let id = self.post_count + 1;
        self.posts.insert(id, Post { id, author, content, tip_total: 0, timestamp, like_count: 0 });
        self.post_count = id;
        assert(self@ =~= old(self)@.after_create_post(author, body, timestamp)->Ok_0);
        Ok(PostCreatedEvent { id, author })
    }

    /// The number of posts ever created, deleted ones included.
    pub fn get_post_count(&self) -> (r: u64)
        ensures
            r == self@.post_count,
    {
        self.post_count
    }

    /// The post with id `id`, unless it does not exist or was deleted.
    pub fn get_post(&self, id: u64) -> (r: Option<&Post>)
        ensures
            match r {
                Some(p) => self@.posts.contains_key(id) && p@ == self@.posts[id],
                None => !self@.posts.contains_key(id),
            },
    {
        self.posts.get(&id)
    }

    /// `author` deletes one of their posts.
    pub fn delete_post(&mut self, author: AccountId, post_id: u64) -> (r: Result<PostDeleted, ContractError>)
        ensures
            match r {
                Ok(ev) => old(self)@.after_delete_post(author, post_id) == Ok::<LinkoraState, ContractError>(final(self)@)
                    && ev == (PostDeleted { post_id, author }),
                Err(e) => old(self)@.after_delete_post(author, post_id) == Err::<LinkoraState, ContractError>(e)
                    && final(self)@ == old(self)@,
            },
    {
        match self.posts.get(&post_id) {
            None => return Err(ContractError::PostDoesNotExist(post_id)),
            Some(p) => if p.author != author {
                return Err(ContractError::NotPostAuthor);
            },
        }
        self.posts.remove(&post_id);
        assert(self@ =~= old(self)@.after_delete_post(author, post_id)->Ok_0);
        Ok(PostDeleted { post_id, author })
    }

    /// Whether `user` has liked the post `post_id`.
    pub fn has_liked(&self, user: AccountId, post_id: u64) -> (r: bool)
        ensures
            r == self@.has_liked(user, post_id),
    {
        match self.likes.get(&post_id) {
            Some(set) => set.contains(&user),
            None => false,
        }
    }

    /// The like count of a post; 0 for a post that does not exist.
    pub fn get_like_count(&self, post_id: u64) -> (r: u64)
        ensures
            r == self@.like_count_of(post_id),
    {
        match self.posts.get(&post_id) {
            Some(p) => p.like_count,
            None => 0,
        }
    }

    /// `user` likes a post. A repeated like changes nothing.
    pub fn like_post(&mut self, user: AccountId, post_id: u64) -> (r: Result<(), ContractError>)
        requires
            !old(self)@.has_liked(user, post_id) && old(self)@.posts.contains_key(post_id)
                ==> old(self)@.posts[post_id].like_count < u64::MAX,
        ensures
            match r {
                Ok(_) => old(self)@.after_like(user, post_id) == Ok::<LinkoraState, ContractError>(final(self)@),
                Err(e) => old(self)@.after_like(user, post_id) == Err::<LinkoraState, ContractError>(e)
                    && final(self)@ == old(self)@,
            },
    {
        if self.has_liked(user, post_id) {
            return Ok(());
        }
        if !self.posts.contains_key(&post_id) {
            return Err(ContractError::PostNotFound);
        }
        let mut post = self.posts.remove(&post_id).unwrap();
        post.like_count = post.like_count + 1;
        self.posts.insert(post_id, post);
        let mut set = match self.likes.remove(&post_id) {
            Some(set) => set,
            None => HashSet::new(),
        };
        set.insert(user);
        self.likes.insert(post_id, set);
        assert(self@ =~= old(self)@.after_like(user, post_id)->Ok_0);
        Ok(())
    }

    // ── Tipping ───────────────────────────────────────────────────────────

    /// `tipper` tips a post `amount` of `token`. The fee goes to the
    /// treasury, the rest to the author; the post's tip total grows by the
    /// whole amount. A tipper blocked by the author is refused, and so is
    /// every tip while the fee rate exceeds 100%.
    pub fn tip(&mut self, tipper: AccountId, post_id: u64, token: AccountId, amount: i128) -> (r: Result<TipReceipt, ContractError>)
        requires
            amount > 0 && old(self)@.posts.contains_key(post_id)
                ==> old(self)@.posts[post_id].tip_total + amount <= i128::MAX,
        ensures
            match r {
                Ok(rec) => old(self)@.after_tip(tipper, post_id, amount) == Ok::<LinkoraState, ContractError>(final(self)@)
                    && rec == old(self)@.tip_receipt(tipper, post_id, token, amount),
                Err(e) => old(self)@.after_tip(tipper, post_id, amount) == Err::<LinkoraState, ContractError>(e)
                    && final(self)@ == old(self)@,
            },
    {
        if amount <= 0 {
            return Err(ContractError::NonPositiveTip);
        }
        let author = match self.posts.get(&post_id) {
            None => return Err(ContractError::PostNotFound),
            Some(p) => p.author,
        };
        if self.is_blocked(author, tipper) {
            return Err(ContractError::Blocked);
        }
        let fee_bps = self.fee_bps();
        if fee_bps > MAX_FEE_BPS {
            return Err(ContractError::FeeTooHigh);
        }
        let (fee, net) = split_tip(amount, fee_bps);
        let mut post = self.posts.remove(&post_id).unwrap();
        post.tip_total = post.tip_total + amount;
        self.posts.insert(post_id, post);
        let fee_payment = match &self.config {
            Some(c) => if fee > 0 {
                Some(Transfer { token, from: Party::Account(tipper), to: Party::Account(c.treasury), amount: fee })
            } else {
                None
            },
            None => None,
        };
        assert(self@ =~= old(self)@.after_tip(tipper, post_id, amount)->Ok_0);
        Ok(TipReceipt {
            event: TipEvent { tipper, post_id, amount, fee },
            author_payment: Transfer { token, from: Party::Account(tipper), to: Party::Account(author), amount: net },
            fee_payment,
        })
    }

    // ── Community pools ───────────────────────────────────────────────────

    /// Opens a pool in `token` whose withdrawals need `threshold` of `admins`.
    pub fn create_pool(&mut self, pool_id: PoolId, token: AccountId, admins: Vec<AccountId>, threshold: u32) -> (r: Result<(), ContractError>)
        ensures
            match r {
                Ok(_) => old(self)@.after_create_pool(pool_id, token, admins@, threshold) == Ok::<LinkoraState, ContractError>(final(self)@),
                Err(e) => old(self)@.after_create_pool(pool_id, token, admins@, threshold) == Err::<LinkoraState, ContractError>(e)
                    && final(self)@ == old(self)@,
            },
    {
        if admins.len() == 0 {
            return Err(ContractError::PoolWithoutAdmins);
        }
        if threshold == 0 || threshold as usize > admins.len() {
            return Err(ContractError::InvalidThreshold);
        }
        if self.pools.contains_key(&pool_id) {
            return Err(ContractError::PoolAlreadyExists);
        }
        let ghost members = admins@;
        self.pools.insert(pool_id, Pool { token, balance: 0, admins, threshold });
        assert(self@ =~= old(self)@.after_create_pool(pool_id, token, members, threshold)->Ok_0);
        Ok(())
    }

    /// The pool `pool_id`, if it exists.
    pub fn get_pool(&self, pool_id: PoolId) -> (r: Option<&Pool>)
        ensures
            match r {
                Some(p) => self@.pools.contains_key(pool_id) && p@ == self@.pools[pool_id],
                None => !self@.pools.contains_key(pool_id),
            },
    {
        self.pools.get(&pool_id)
    }

    /// `depositor` pays `amount` of `token` into a pool. A deposit into a
    /// pool that does not exist opens one in that token with no admins.
    /// The pool is credited whatever token was paid, also one that differs
    /// from the pool's own token.
    pub fn pool_deposit(&mut self, depositor: AccountId, pool_id: PoolId, token: AccountId, amount: i128) -> (r: Result<Transfer, ContractError>)
        requires
            amount > 0 ==> old(self)@.pool_for_deposit(pool_id, token).balance + amount <= i128::MAX,
        ensures
            match r {
                Ok(t) => old(self)@.after_deposit(pool_id, token, amount) == Ok::<LinkoraState, ContractError>(final(self)@)
                    && t == (Transfer { token, from: Party::Account(depositor), to: Party::Contract, amount }),
                Err(e) => old(self)@.after_deposit(pool_id, token, amount) == Err::<LinkoraState, ContractError>(e)
                    && final(self)@ == old(self)@,
            },
    {
        if amount <= 0 {
            return Err(ContractError::NonPositiveDeposit);
        }
        let mut pool = match self.pools.remove(&pool_id) {
            Some(pool) => pool,
            None => Pool { token, balance: 0, admins: Vec::new(), threshold: 1 },
        };
        assert(pool@ == old(self)@.pool_for_deposit(pool_id, token));
        pool.balance = pool.balance + amount;
        self.pools.insert(pool_id, pool);
        assert(self@ =~= old(self)@.after_deposit(pool_id, token, amount)->Ok_0);
        Ok(Transfer { token, from: Party::Account(depositor), to: Party::Contract, amount })
    }

    /// Pays `amount` from a pool to `recipient`, when at least the pool's
    /// threshold of distinct admins are among `signers`.
    pub fn pool_withdraw(&mut self, signers: &Vec<AccountId>, pool_id: PoolId, amount: i128, recipient: AccountId) -> (r: Result<Transfer, ContractError>)
        ensures
            match r {
                Ok(t) => old(self)@.after_withdraw(signers@, pool_id, amount) == Ok::<LinkoraState, ContractError>(final(self)@)
                    && t == (Transfer {
                        token: old(self)@.pools[pool_id].token,
                        from: Party::Contract,
                        to: Party::Account(recipient),
                        amount,
                    }),
                Err(e) => old(self)@.after_withdraw(signers@, pool_id, amount) == Err::<LinkoraState, ContractError>(e)
                    && final(self)@ == old(self)@,
            },
    {
        if amount <= 0 {
            return Err(ContractError::NonPositiveWithdrawal);
        }
        let (token, balance) = match self.pools.get(&pool_id) {
            None => return Err(ContractError::PoolNotFound),
            Some(pool) => {
                let approved = count_approvals(signers, &pool.admins);
                if approved < pool.threshold as usize {
                    return Err(ContractError::InsufficientSigners);
                }
                (pool.token, pool.balance)
            },
        };
        if balance < amount {
            return Err(ContractError::InsufficientPoolBalance);
        }
        let mut pool = self.pools.remove(&pool_id).unwrap();
        pool.balance = balance - amount;
        self.pools.insert(pool_id, pool);
        assert(self@ =~= old(self)@.after_withdraw(signers@, pool_id, amount)->Ok_0);
        Ok(Transfer { token, from: Party::Contract, to: Party::Account(recipient), amount })
    }
}

} // verus!
