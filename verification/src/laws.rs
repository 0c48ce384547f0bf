//! What the protocol promises across operations, proved over the state
//! model that the operations' contracts speak of.
use vstd::prelude::*;
use crate::fees::{fee_share, MAX_FEE_BPS};
use crate::state::{approvals, first_index, lemma_first_index, without_first, LinkoraState};
use crate::types::{AccountId, Config, ContractError, Party, PoolId, PoolView, PostView, ProfileView, Transfer};
use crate::validation::{username_verdict, ContentError, UsernameError};

verus! {

broadcast use vstd::seq_lib::group_seq_properties;

/// Removing the first `x` from a list without repeats leaves every other
/// element and nothing else, still without repeats.
proof fn lemma_without_first(s: Seq<AccountId>, x: AccountId)
    requires
        s.no_duplicates(),
    ensures
        without_first(s, x).no_duplicates(),
        forall|y: AccountId| #[trigger] without_first(s, x).contains(y) <==> (s.contains(y) && y != x),
{
    if s.contains(x) {
        let k = first_index(s, x);
        let i0 = choose|i: int| 0 <= i < s.len() && s[i] == x;
        assert(0 <= i0 < s.len() && s[i0] == x);
        assert forall|j: int| 0 <= j < i0 implies s[j] != x by {
            if s[j] == x {
                assert(s[j] == s[i0]);
            }
        }
        assert(0 <= k < s.len() && s[k] == x);
        let r = s.remove(k);
        assert(r.len() == s.len() - 1);
        assert forall|a: int, b: int| 0 <= a < b < r.len() implies r[a] != r[b] by {
            let a2 = if a < k { a } else { a + 1 };
            let b2 = if b < k { b } else { b + 1 };
            assert(r[a] == s[a2] && r[b] == s[b2]);
        }
        assert forall|y: AccountId| #[trigger] r.contains(y) <==> (s.contains(y) && y != x) by {
            if r.contains(y) {
                let i = choose|i: int| 0 <= i < r.len() && r[i] == y;
                let i2 = if i < k { i } else { i + 1 };
                assert(s[i2] == y);
                assert(i2 != k);
            }
            if s.contains(y) && y != x {
                let i = choose|i: int| 0 <= i < s.len() && s[i] == y;
                assert(i != k);
                let i2 = if i < k { i } else { i - 1 };
                assert(r[i2] == y);
            }
        }
    }
}

/// The follow-graph part of the invariant depends only on the two lists.
proof fn lemma_same_graph(s: LinkoraState, t: LinkoraState)
    requires
        s.graph_consistent(),
        t.following == s.following,
        t.followers == s.followers,
    ensures
        t.graph_consistent(),
{
    assert forall|a: AccountId, b: AccountId|
        #[trigger] t.following_of(a).contains(b) <==> #[trigger] t.followers_of(b).contains(a) by {
        assert(s.following_of(a).contains(b) <==> s.followers_of(b).contains(a));
    }
    assert forall|a: AccountId| #[trigger] t.following_of(a).no_duplicates() by {
        assert(s.following_of(a).no_duplicates());
    }
    assert forall|a: AccountId| #[trigger] t.followers_of(a).no_duplicates() by {
        assert(s.followers_of(a).no_duplicates());
    }
}

/// The post part of the invariant depends only on the posts, the likes and
/// the post count.
proof fn lemma_same_posts(s: LinkoraState, t: LinkoraState)
    requires
        s.posts_consistent(),
        t.posts == s.posts,
        t.likes == s.likes,
        t.post_count == s.post_count,
    ensures
        t.posts_consistent(),
{
    assert forall|id: u64| #[trigger] t.posts.contains_key(id) implies t.posts[id].like_count == t.likers_of(id).len() by {
        assert(s.posts.contains_key(id));
    }
}

/// A step that touches neither the graph, the posts nor the pools keeps
/// those parts of the invariant.
proof fn lemma_untouched(s: LinkoraState, t: LinkoraState)
    requires
        s.valid(),
        t.following == s.following,
        t.followers == s.followers,
        t.posts == s.posts,
        t.likes == s.likes,
        t.post_count == s.post_count,
        t.pools == s.pools,
    ensures
        t.graph_consistent(),
        t.posts_consistent(),
        t.pools_consistent(),
{
    lemma_same_graph(s, t);
    lemma_same_posts(s, t);
}

// ── The state invariant ───────────────────────────────────────────────────

/// A freshly deployed contract is in a valid state.
pub proof fn lemma_empty_is_valid()
    ensures
        LinkoraState::empty().valid(),
{
    let s = LinkoraState::empty();
    assert forall|a: AccountId, b: AccountId|
        #[trigger] s.following_of(a).contains(b) <==> #[trigger] s.followers_of(b).contains(a) by {}
}

/// Initializing and changing the settings keep the state valid.
pub proof fn lemma_settings_keep_valid(s: LinkoraState, caller: AccountId, admin: AccountId, treasury: AccountId, fee_bps: u32)
    requires
        s.valid(),
    ensures
        s.after_initialize(admin, treasury, fee_bps) matches Ok(t) ==> t.valid(),
        s.after_set_fee(caller, fee_bps) matches Ok(t) ==> t.valid(),
        s.after_set_treasury(caller, treasury) matches Ok(t) ==> t.valid(),
{
    if let Ok(t) = s.after_initialize(admin, treasury, fee_bps) {
        lemma_untouched(s, t);
    }
    if let Ok(t) = s.after_set_fee(caller, fee_bps) {
        lemma_untouched(s, t);
    }
    if let Ok(t) = s.after_set_treasury(caller, treasury) {
        lemma_untouched(s, t);
    }
}

/// Setting a profile keeps the state valid.
pub proof fn lemma_set_profile_keeps_valid(s: LinkoraState, user: AccountId, username: Seq<u8>, creator_token: AccountId)
    requires
        s.valid(),
    ensures
        s.after_set_profile(user, username, creator_token) matches Ok(t) ==> t.valid(),
{
    if let Ok(t) = s.after_set_profile(user, username, creator_token) {
        lemma_untouched(s, t);
    }
}

/// Blocking and unblocking keep the state valid.
pub proof fn lemma_blocking_keeps_valid(s: LinkoraState, blocker: AccountId, blocked: AccountId)
    requires
        s.valid(),
    ensures
        s.after_block(blocker, blocked).valid(),
        s.after_unblock(blocker, blocked).valid(),
{
    lemma_untouched(s, s.after_block(blocker, blocked));
    lemma_untouched(s, s.after_unblock(blocker, blocked));
}

/// Following keeps the state valid: the two lists stay mirror images of
/// each other and free of repeats.
pub proof fn lemma_follow_keeps_valid(s: LinkoraState, follower: AccountId, followee: AccountId)
    requires
        s.valid(),
    ensures
        s.after_follow(follower, followee) matches Ok(t) ==> t.valid(),
{
    if let Ok(t) = s.after_follow(follower, followee) {
        if !s.following_of(follower).contains(followee) {
            let (a, b) = (follower, followee);
            assert(!s.followers_of(b).contains(a));
            assert forall|x: AccountId, y: AccountId|
                #[trigger] t.following_of(x).contains(y) <==> #[trigger] t.followers_of(y).contains(x) by {
                assert(s.following_of(x).contains(y) <==> s.followers_of(y).contains(x));
                if x == a {
                    assert(t.following_of(a) == s.following_of(a).push(b));
                }
                if y == b {
                    assert(t.followers_of(b) == s.followers_of(b).push(a));
                }
            }
            assert forall|x: AccountId| #[trigger] t.following_of(x).no_duplicates() by {
                assert(s.following_of(x).no_duplicates());
            }
            assert forall|x: AccountId| #[trigger] t.followers_of(x).no_duplicates() by {
                assert(s.followers_of(x).no_duplicates());
            }
        }
        lemma_same_posts(s, t);
    }
}

/// Unfollowing keeps the state valid.
pub proof fn lemma_unfollow_keeps_valid(s: LinkoraState, follower: AccountId, followee: AccountId)
    requires
        s.valid(),
    ensures
        s.after_unfollow(follower, followee).valid(),
{
    let t = s.after_unfollow(follower, followee);
    let (a, b) = (follower, followee);
    if s.following_of(a).contains(b) {
        assert(s.followers_of(b).contains(a));
        lemma_without_first(s.following_of(a), b);
        lemma_without_first(s.followers_of(b), a);
        assert(t.following_of(a) == without_first(s.following_of(a), b));
        assert(t.followers_of(b) == without_first(s.followers_of(b), a));
        assert forall|x: AccountId, y: AccountId|
            #[trigger] t.following_of(x).contains(y) <==> #[trigger] t.followers_of(y).contains(x) by {
            assert(s.following_of(x).contains(y) <==> s.followers_of(y).contains(x));
        }
        assert forall|x: AccountId| #[trigger] t.following_of(x).no_duplicates() by {
            assert(s.following_of(x).no_duplicates());
        }
        assert forall|x: AccountId| #[trigger] t.followers_of(x).no_duplicates() by {
            assert(s.followers_of(x).no_duplicates());
        }
    }
    lemma_same_posts(s, t);
}

/// Creating a post keeps the state valid: the new id is fresh, so the new
/// post starts with no likes.
pub proof fn lemma_create_post_keeps_valid(s: LinkoraState, author: AccountId, content: Seq<u8>, timestamp: u64)
    requires
        s.valid(),
        s.post_count < u64::MAX,
    ensures
        s.after_create_post(author, content, timestamp) matches Ok(t) ==> t.valid(),
{
    if let Ok(t) = s.after_create_post(author, content, timestamp) {
        let n = s.next_post_id();
        assert(!s.likes.contains_key(n));
        assert(t.likers_of(n) == Set::<AccountId>::empty());
        assert forall|id: u64| #[trigger] t.posts.contains_key(id) implies
            1 <= id <= t.post_count && t.posts[id].id == id && t.posts[id].like_count == t.likers_of(id).len() by {
            if id != n {
                assert(s.posts.contains_key(id));
            }
        }
        assert forall|id: u64| #[trigger] t.likes.contains_key(id) implies 1 <= id <= t.post_count && t.likes[id].finite() by {
            assert(s.likes.contains_key(id));
        }
        lemma_same_graph(s, t);
    }
}

/// Deleting a post keeps the state valid.
pub proof fn lemma_delete_post_keeps_valid(s: LinkoraState, author: AccountId, post_id: u64)
    requires
        s.valid(),
    ensures
        s.after_delete_post(author, post_id) matches Ok(t) ==> t.valid(),
{
    if let Ok(t) = s.after_delete_post(author, post_id) {
        assert forall|id: u64| #[trigger] t.posts.contains_key(id) implies
            1 <= id <= t.post_count && t.posts[id].id == id && t.posts[id].like_count == t.likers_of(id).len() by {
            assert(s.posts.contains_key(id));
        }
        lemma_same_graph(s, t);
    }
}

/// Liking keeps the state valid: a post's like count grows exactly when a
/// new account joins its likers.
pub proof fn lemma_like_keeps_valid(s: LinkoraState, user: AccountId, post_id: u64)
    requires
        s.valid(),
        s.posts.contains_key(post_id) ==> s.posts[post_id].like_count < u64::MAX,
    ensures
        s.after_like(user, post_id) matches Ok(t) ==> t.valid(),
{
    if let Ok(t) = s.after_like(user, post_id) {
        if !s.has_liked(user, post_id) {
            assert(s.posts.contains_key(post_id));
            assert(s.likers_of(post_id).finite());
            assert(t.likers_of(post_id) == s.likers_of(post_id).insert(user));
            assert forall|id: u64| #[trigger] t.posts.contains_key(id) implies
                1 <= id <= t.post_count && t.posts[id].id == id && t.posts[id].like_count == t.likers_of(id).len() by {
                assert(s.posts.contains_key(id));
            }
            assert forall|id: u64| #[trigger] t.likes.contains_key(id) implies 1 <= id <= t.post_count && t.likes[id].finite() by {
                if id != post_id {
                    assert(s.likes.contains_key(id));
                } else {
                    assert(s.posts.contains_key(id));
                }
            }
            lemma_same_graph(s, t);
        }
    }
}

/// Tipping keeps the state valid.
pub proof fn lemma_tip_keeps_valid(s: LinkoraState, tipper: AccountId, post_id: u64, amount: i128)
    requires
        s.valid(),
        s.posts.contains_key(post_id) ==> s.posts[post_id].tip_total + amount <= i128::MAX,
    ensures
        s.after_tip(tipper, post_id, amount) matches Ok(t) ==> t.valid(),
{
    if let Ok(t) = s.after_tip(tipper, post_id, amount) {
        assert forall|id: u64| #[trigger] t.posts.contains_key(id) implies
            1 <= id <= t.post_count && t.posts[id].id == id && t.posts[id].like_count == t.likers_of(id).len() by {
            assert(s.posts.contains_key(id));
        }
        lemma_same_graph(s, t);
    }
}

/// Opening a pool keeps the state valid.
pub proof fn lemma_create_pool_keeps_valid(s: LinkoraState, pool_id: PoolId, token: AccountId, admins: Seq<AccountId>, threshold: u32)
    requires
        s.valid(),
    ensures
        s.after_create_pool(pool_id, token, admins, threshold) matches Ok(t) ==> t.valid(),
{
    if let Ok(t) = s.after_create_pool(pool_id, token, admins, threshold) {
        lemma_same_graph(s, t);
        lemma_same_posts(s, t);
        assert forall|id: PoolId| #[trigger] t.pools.contains_key(id) implies t.pools[id].balance >= 0 && t.pools[id].threshold >= 1 by {
            if id != pool_id {
                assert(s.pools.contains_key(id));
            }
        }
    }
}

/// A deposit keeps the state valid.
pub proof fn lemma_deposit_keeps_valid(s: LinkoraState, pool_id: PoolId, token: AccountId, amount: i128)
    requires
        s.valid(),
        s.pool_for_deposit(pool_id, token).balance + amount <= i128::MAX,
    ensures
        s.after_deposit(pool_id, token, amount) matches Ok(t) ==> t.valid(),
{
    if let Ok(t) = s.after_deposit(pool_id, token, amount) {
        lemma_same_graph(s, t);
        lemma_same_posts(s, t);
        assert forall|id: PoolId| #[trigger] t.pools.contains_key(id) implies t.pools[id].balance >= 0 && t.pools[id].threshold >= 1 by {
            if id != pool_id || s.pools.contains_key(id) {
                assert(s.pools.contains_key(id));
            }
        }
    }
}

/// A withdrawal keeps the state valid: it never overdraws a pool.
pub proof fn lemma_withdraw_keeps_valid(s: LinkoraState, signers: Seq<AccountId>, pool_id: PoolId, amount: i128)
    requires
        s.valid(),
    ensures
        s.after_withdraw(signers, pool_id, amount) matches Ok(t) ==> t.valid(),
{
    if let Ok(t) = s.after_withdraw(signers, pool_id, amount) {
        lemma_same_graph(s, t);
        lemma_same_posts(s, t);
        assert forall|id: PoolId| #[trigger] t.pools.contains_key(id) implies t.pools[id].balance >= 0 && t.pools[id].threshold >= 1 by {
            assert(s.pools.contains_key(id));
        }
    }
}

// ── Settings ──────────────────────────────────────────────────────────────

/// The contract can be initialized only once.
pub proof fn lemma_initialize_once(
    s: LinkoraState,
    admin: AccountId,
    treasury: AccountId,
    fee_bps: u32,
    other_admin: AccountId,
    other_treasury: AccountId,
    other_fee_bps: u32,
)
    ensures
        s.after_initialize(admin, treasury, fee_bps) matches Ok(t) ==>
            t.after_initialize(other_admin, other_treasury, other_fee_bps) == Err::<LinkoraState, ContractError>(ContractError::AlreadyInitialized),
{
}

// ── Profiles ──────────────────────────────────────────────────────────────

/// Only the admin changes the settings: for any other caller, and before
/// initialization, setting the fee or the treasury is refused and changes
/// nothing; the admin's change touches only the one setting.
pub proof fn lemma_only_admin_changes_settings(s: LinkoraState, caller: AccountId, fee_bps: u32, treasury: AccountId)
    ensures
        s.admin() != Some(caller) ==> s.after_set_fee(caller, fee_bps) is Err && s.after_set_treasury(caller, treasury) is Err,
        s.after_set_fee(caller, fee_bps) matches Ok(t) ==> {
            &&& s.admin() == Some(caller)
            &&& t.fee_bps() == fee_bps && t.admin() == s.admin() && t.treasury() == s.treasury()
        },
        s.after_set_treasury(caller, treasury) matches Ok(t) ==> {
            &&& s.admin() == Some(caller)
            &&& t.treasury() == Some(treasury) && t.admin() == s.admin() && t.fee_bps() == s.fee_bps()
        },
{
}

/// The settings change only through `initialize`, `set_fee` and
/// `set_treasury`: every other operation leaves the admin, the treasury and
/// the fee rate as they were.
pub proof fn lemma_other_operations_keep_settings(
    s: LinkoraState,
    a: AccountId,
    b: AccountId,
    name: Seq<u8>,
    timestamp: u64,
    post_id: u64,
    pool_id: PoolId,
    admins: Seq<AccountId>,
    threshold: u32,
    signers: Seq<AccountId>,
    amount: i128,
)
    ensures
        s.after_set_profile(a, name, b) matches Ok(t) ==> t.config == s.config,
        s.after_follow(a, b) matches Ok(t) ==> t.config == s.config,
        s.after_unfollow(a, b).config == s.config,
        s.after_block(a, b).config == s.config,
        s.after_unblock(a, b).config == s.config,
        s.after_create_post(a, name, timestamp) matches Ok(t) ==> t.config == s.config,
        s.after_delete_post(a, post_id) matches Ok(t) ==> t.config == s.config,
        s.after_like(a, post_id) matches Ok(t) ==> t.config == s.config,
        s.after_tip(a, post_id, amount) matches Ok(t) ==> t.config == s.config,
        s.after_create_pool(pool_id, b, admins, threshold) matches Ok(t) ==> t.config == s.config,
        s.after_deposit(pool_id, b, amount) matches Ok(t) ==> t.config == s.config,
        s.after_withdraw(signers, pool_id, amount) matches Ok(t) ==> t.config == s.config,
{
}

/// A profile reads back as it was set, and the number of profiles grows by
/// one exactly when the account had none.
pub proof fn lemma_profile_set_then_read(s: LinkoraState, user: AccountId, username: Seq<u8>, creator_token: AccountId)
    requires
        s.valid(),
    ensures
        s.after_set_profile(user, username, creator_token) matches Ok(t) ==> {
            &&& t.profiles.contains_key(user)
            &&& t.profiles[user] == (ProfileView { address: user, username, creator_token })
            &&& forall|other: AccountId| other != user ==> #[trigger] t.profiles.contains_key(other) == s.profiles.contains_key(other)
            &&& t.profiles.len() == s.profiles.len() + (if s.profiles.contains_key(user) { 0int } else { 1int })
        },
{
    if let Ok(t) = s.after_set_profile(user, username, creator_token) {
        assert(t.profiles.dom() == s.profiles.dom().insert(user));
    }
}

// ── Social graph ──────────────────────────────────────────────────────────

/// Following twice is the same as following once.
pub proof fn lemma_follow_is_idempotent(s: LinkoraState, follower: AccountId, followee: AccountId)
    ensures
        s.after_follow(follower, followee) matches Ok(t) ==> t.after_follow(follower, followee) == Ok::<LinkoraState, ContractError>(t),
{
    if let Ok(t) = s.after_follow(follower, followee) {
        if !s.following_of(follower).contains(followee) {
            assert(t.following_of(follower) == s.following_of(follower).push(followee));
            assert(t.following_of(follower)[t.following_of(follower).len() - 1] == followee);
        }
    }
}

/// After a follow, each account is in the other's list.
pub proof fn lemma_follow_connects(s: LinkoraState, follower: AccountId, followee: AccountId)
    requires
        s.valid(),
    ensures
        s.after_follow(follower, followee) matches Ok(t) ==> {
            &&& t.following_of(follower).contains(followee)
            &&& t.followers_of(followee).contains(follower)
        },
{
    if let Ok(t) = s.after_follow(follower, followee) {
        if !s.following_of(follower).contains(followee) {
            assert(t.following_of(follower) == s.following_of(follower).push(followee));
            assert(t.following_of(follower)[t.following_of(follower).len() - 1] == followee);
            assert(t.followers_of(followee) == s.followers_of(followee).push(follower));
            assert(t.followers_of(followee)[t.followers_of(followee).len() - 1] == follower);
        } else {
            assert(s.followers_of(followee).contains(follower));
        }
    }
}

/// An account that the followee has blocked cannot follow it.
pub proof fn lemma_blocked_cannot_follow(s: LinkoraState, follower: AccountId, followee: AccountId)
    requires
        s.is_blocked(followee, follower),
    ensures
        s.after_follow(follower, followee) == Err::<LinkoraState, ContractError>(ContractError::Blocked),
{
}

/// After an unfollow, neither account is in the other's list.
pub proof fn lemma_unfollow_disconnects(s: LinkoraState, follower: AccountId, followee: AccountId)
    requires
        s.valid(),
    ensures
        !s.after_unfollow(follower, followee).following_of(follower).contains(followee),
        !s.after_unfollow(follower, followee).followers_of(followee).contains(follower),
{
    let t = s.after_unfollow(follower, followee);
    lemma_without_first(s.following_of(follower), followee);
    lemma_without_first(s.followers_of(followee), follower);
    if s.following_of(follower).contains(followee) {
        assert(s.followers_of(followee).contains(follower));
        assert(t.following_of(follower) == without_first(s.following_of(follower), followee));
        assert(t.followers_of(followee) == without_first(s.followers_of(followee), follower));
    } else {
        assert(!s.followers_of(followee).contains(follower));
    }
}

/// Removing an element just appended, and found nowhere else, gives the
/// list back.
proof fn lemma_without_first_of_push(s: Seq<AccountId>, x: AccountId)
    requires
        !s.contains(x),
    ensures
        without_first(s.push(x), x) == s,
{
    let p = s.push(x);
    assert(p[s.len() as int] == x);
    assert forall|j: int| 0 <= j < s.len() implies p[j] != x by {
        assert(p[j] == s[j]);
    }
    lemma_first_index(p, x, s.len() as int);
    assert(p.remove(s.len() as int) =~= s);
}

/// Unfollowing undoes a follow: every following and followers list is
/// as it was before, and nothing else has changed.
pub proof fn lemma_unfollow_undoes_follow(s: LinkoraState, follower: AccountId, followee: AccountId)
    requires
        s.valid(),
        !s.following_of(follower).contains(followee),
    ensures
        s.after_follow(follower, followee) matches Ok(t) ==> {
            let u = t.after_unfollow(follower, followee);
            &&& forall|x: AccountId| #[trigger] u.following_of(x) == s.following_of(x)
            &&& forall|x: AccountId| #[trigger] u.followers_of(x) == s.followers_of(x)
            &&& u.config == s.config
            &&& u.profiles == s.profiles
            &&& u.blocks == s.blocks
            &&& u.posts == s.posts
            &&& u.post_count == s.post_count
            &&& u.likes == s.likes
            &&& u.pools == s.pools
        },
{
    if let Ok(t) = s.after_follow(follower, followee) {
        let (a, b) = (follower, followee);
        assert(!s.followers_of(b).contains(a));
        assert(t.following_of(a) == s.following_of(a).push(b));
        assert(t.followers_of(b) == s.followers_of(b).push(a));
        assert(t.following_of(a)[t.following_of(a).len() - 1] == b);
        assert(t.followers_of(b)[t.followers_of(b).len() - 1] == a);
        lemma_without_first_of_push(s.following_of(a), b);
        lemma_without_first_of_push(s.followers_of(b), a);
        let u = t.after_unfollow(a, b);
        assert forall|x: AccountId| #[trigger] u.following_of(x) == s.following_of(x) by {
            if x == a {
                assert(u.following_of(a) == without_first(t.following_of(a), b));
            }
        }
        assert forall|x: AccountId| #[trigger] u.followers_of(x) == s.followers_of(x) by {
            if x == b {
                assert(u.followers_of(b) == without_first(t.followers_of(b), a));
            }
        }
    }
}

/// Blocking takes effect for the one pair named and no other; unblocking
/// lifts it for that pair and no other.
pub proof fn lemma_block_and_unblock(s: LinkoraState, blocker: AccountId, blocked: AccountId)
    ensures
        s.after_block(blocker, blocked).is_blocked(blocker, blocked),
        !s.after_unblock(blocker, blocked).is_blocked(blocker, blocked),
        forall|x: AccountId, y: AccountId| !(x == blocker && y == blocked) ==>
            #[trigger] s.after_block(blocker, blocked).is_blocked(x, y) == s.is_blocked(x, y)
            && s.after_unblock(blocker, blocked).is_blocked(x, y) == s.is_blocked(x, y),
{
}

// ── Posts ─────────────────────────────────────────────────────────────────

/// Posts are numbered 1, 2, 3, ...: a new post takes the next id, which no
/// existing post holds, and leaves every other post as it was.
pub proof fn lemma_post_ids_are_sequential(s: LinkoraState, author: AccountId, content: Seq<u8>, timestamp: u64)
    requires
        s.valid(),
        s.post_count < u64::MAX,
    ensures
        s.after_create_post(author, content, timestamp) matches Ok(t) ==> {
            &&& t.post_count == s.post_count + 1
            &&& !s.posts.contains_key(t.post_count)
            &&& t.posts[t.post_count] == (PostView { id: t.post_count, author, content, tip_total: 0, timestamp, like_count: 0 })
            &&& forall|id: u64| id != t.post_count ==> #[trigger] t.posts.contains_key(id) == s.posts.contains_key(id)
                && (s.posts.contains_key(id) ==> t.posts[id] == s.posts[id])
        },
{
}

/// A deleted post is gone, and the post count does not go back: its id is
/// never given out again.
pub proof fn lemma_delete_post_removes(s: LinkoraState, author: AccountId, post_id: u64)
    ensures
        s.after_delete_post(author, post_id) matches Ok(t) ==> {
            &&& !t.posts.contains_key(post_id)
            &&& t.post_count == s.post_count
            &&& s.posts[post_id].author == author
        },
{
}

/// Liking twice is the same as liking once, and the like is recorded.
pub proof fn lemma_like_is_idempotent(s: LinkoraState, user: AccountId, post_id: u64)
    ensures
        s.after_like(user, post_id) matches Ok(t) ==> {
            &&& t.has_liked(user, post_id)
            &&& t.after_like(user, post_id) == Ok::<LinkoraState, ContractError>(t)
        },
{
}

/// In a valid state a post's like count is the number of accounts that
/// liked it.
pub proof fn lemma_like_count_is_number_of_likers(s: LinkoraState, post_id: u64)
    requires
        s.valid(),
        s.posts.contains_key(post_id),
    ensures
        s.like_count_of(post_id) == s.likers_of(post_id).len(),
{
}

// ── Tips ──────────────────────────────────────────────────────────────────

/// The fee never exceeds the tip and is never negative.
pub proof fn lemma_fee_share_bounds(amount: int, fee_bps: int)
    requires
        0 <= amount,
        0 <= fee_bps <= MAX_FEE_BPS,
    ensures
        0 <= fee_share(amount, fee_bps) <= amount,
{
    assert(0 <= amount * fee_bps <= amount * 10_000) by (nonlinear_arith)
        requires 0 <= amount, 0 <= fee_bps <= 10_000;
    assert(amount * fee_bps / 10_000 <= amount * 10_000 / 10_000) by (nonlinear_arith)
        requires 0 <= amount * fee_bps <= amount * 10_000;
    assert(amount * 10_000 / 10_000 == amount) by (nonlinear_arith);
    assert(0 <= amount * fee_bps / 10_000) by (nonlinear_arith)
        requires 0 <= amount * fee_bps;
}

/// A tip pays out exactly the tipped amount: the author's share and the
/// treasury's fee are both non-negative and add up to it, the tipper pays
/// both, the event reports the fee paid, and the post's tip total grows by
/// the whole amount.
pub proof fn lemma_tip_pays_out_the_amount(s: LinkoraState, tipper: AccountId, post_id: u64, token: AccountId, amount: i128)
    requires
        s.posts.contains_key(post_id) ==> s.posts[post_id].tip_total + amount <= i128::MAX,
    ensures
        s.after_tip(tipper, post_id, amount) matches Ok(t) ==> {
            let rec = s.tip_receipt(tipper, post_id, token, amount);
            let fee: int = match rec.fee_payment { Some(p) => p.amount as int, None => 0 };
            &&& rec.author_payment.amount + fee == amount
            &&& rec.author_payment.amount >= 0
            &&& fee >= 0
            &&& rec.event.fee == fee
            &&& rec.author_payment.from == Party::Account(tipper)
            &&& rec.author_payment.to == Party::Account(s.posts[post_id].author)
            &&& (rec.fee_payment matches Some(p) ==> p.from == Party::Account(tipper) && p.token == token)
            &&& t.posts[post_id].tip_total == s.posts[post_id].tip_total + amount
        },
{
    if let Ok(t) = s.after_tip(tipper, post_id, amount) {
        lemma_fee_share_bounds(amount as int, s.fee_bps() as int);
        if s.config is None {
            assert(fee_share(amount as int, 0) == 0);
        }
    }
}

/// At a fee rate of 0 (the rate `initialize(admin, treasury, 0)` sets, and
/// which only `set_fee` changes) every successful tip pays the whole amount
/// to the post's author and nothing to the treasury.
pub proof fn lemma_zero_fee_tip_pays_author(s: LinkoraState, tipper: AccountId, post_id: u64, token: AccountId, amount: i128)
    requires
        s.fee_bps() == 0,
    ensures
        s.after_tip(tipper, post_id, amount) is Ok ==> {
            let rec = s.tip_receipt(tipper, post_id, token, amount);
            &&& rec.author_payment == (Transfer {
                token,
                from: Party::Account(tipper),
                to: Party::Account(s.posts[post_id].author),
                amount,
            })
            &&& rec.fee_payment is None
            &&& rec.event.fee == 0
        },
{
    assert(fee_share(amount as int, 0) == 0);
}

/// Initializing with a fee rate of 0 leaves the rate at 0.
pub proof fn lemma_initialize_with_zero_fee(s: LinkoraState, admin: AccountId, treasury: AccountId)
    ensures
        s.after_initialize(admin, treasury, 0) matches Ok(t) ==> t.fee_bps() == 0
            && t.admin() == Some(admin) && t.treasury() == Some(treasury),
{
}

/// A tip is refused while the fee rate exceeds 100%.
pub proof fn lemma_tip_refused_above_full_fee(s: LinkoraState, tipper: AccountId, post_id: u64, amount: i128)
    requires
        s.fee_bps() > MAX_FEE_BPS,
    ensures
        s.after_tip(tipper, post_id, amount) is Err,
{
}

/// A tipper whom the author has blocked cannot tip the author's posts.
pub proof fn lemma_blocked_cannot_tip(s: LinkoraState, tipper: AccountId, post_id: u64, amount: i128)
    requires
        amount > 0,
        s.posts.contains_key(post_id),
        s.is_blocked(s.posts[post_id].author, tipper),
    ensures
        s.after_tip(tipper, post_id, amount) == Err::<LinkoraState, ContractError>(ContractError::Blocked),
{
}

// ── Pools ─────────────────────────────────────────────────────────────────

/// A withdrawal succeeds only with enough distinct admin signers and enough
/// funds, and takes exactly the amount out of the pool.
pub proof fn lemma_withdraw_needs_quorum(s: LinkoraState, signers: Seq<AccountId>, pool_id: PoolId, amount: i128)
    ensures
        s.after_withdraw(signers, pool_id, amount) matches Ok(t) ==> {
            &&& approvals(signers, s.pools[pool_id].admins).len() >= s.pools[pool_id].threshold
            &&& approvals(signers, s.pools[pool_id].admins).subset_of(s.pools[pool_id].admins.to_set())
            &&& s.pools[pool_id].balance >= amount
            &&& t.pools[pool_id].balance == s.pools[pool_id].balance - amount
        },
{
}

/// A signer named twice counts once, and a signer who is not an admin does
/// not count.
pub proof fn lemma_signers_count_once(signers: Seq<AccountId>, admins: Seq<AccountId>, x: AccountId)
    requires
        signers.contains(x) || !admins.contains(x),
    ensures
        approvals(signers.push(x), admins) == approvals(signers, admins),
{
    signers.lemma_push_to_set_commute(x);
    assert(approvals(signers.push(x), admins) =~= approvals(signers, admins));
}

/// Depositing into an existing pool and withdrawing the same amount with
/// enough admin signatures gives back the pools as they were.
pub proof fn lemma_withdraw_undoes_deposit(s: LinkoraState, signers: Seq<AccountId>, pool_id: PoolId, token: AccountId, amount: i128)
    requires
        s.valid(),
        s.pools.contains_key(pool_id),
        s.pools[pool_id].balance + amount <= i128::MAX,
        amount > 0,
        approvals(signers, s.pools[pool_id].admins).len() >= s.pools[pool_id].threshold,
    ensures
        s.after_deposit(pool_id, token, amount) matches Ok(t)
            && t.after_withdraw(signers, pool_id, amount) matches Ok(u)
            && u.pools == s.pools,
{
    let t = s.after_deposit(pool_id, token, amount)->Ok_0;
    assert(t.pools[pool_id].admins == s.pools[pool_id].admins);
    let u = t.after_withdraw(signers, pool_id, amount)->Ok_0;
    assert(u.pools =~= s.pools);
}

// ── What each operation does, over all inputs ─────────────────────────────

/// An ASCII letter, an ASCII digit or the underscore.
pub open spec fn is_ascii_word_byte(c: u8) -> bool {
    ||| ('0' as u8) <= c && c <= ('9' as u8)
    ||| ('A' as u8) <= c && c <= ('Z' as u8)
    ||| ('a' as u8) <= c && c <= ('z' as u8)
    ||| c == ('_' as u8)
}

/// A username is accepted exactly when it has 3 to 32 bytes, each an ASCII
/// letter, digit or underscore; a refusal names the first rule broken.
pub proof fn lemma_username_rule(name: Seq<u8>)
    ensures
        username_verdict(name) is Ok <==> (3 <= name.len() <= 32
            && forall|i: int| 0 <= i < name.len() ==> is_ascii_word_byte(#[trigger] name[i])),
        name.len() < 3 ==> username_verdict(name) == Err::<(), UsernameError>(UsernameError::TooShort),
        name.len() > 32 ==> username_verdict(name) == Err::<(), UsernameError>(UsernameError::TooLong),
        3 <= name.len() <= 32 && (exists|i: int| 0 <= i < name.len() && !is_ascii_word_byte(#[trigger] name[i]))
            ==> username_verdict(name) == Err::<(), UsernameError>(UsernameError::InvalidCharacter),
{
    assert(('0' as u8) == 0x30u8 && ('9' as u8) == 0x39u8 && ('A' as u8) == 0x41u8 && ('Z' as u8) == 0x5au8);
    assert(('a' as u8) == 0x61u8 && ('z' as u8) == 0x7au8 && ('_' as u8) == 0x5fu8);
}

/// Setting a profile succeeds exactly for a well-formed username, and then
/// stores that name and token for the user and touches nothing else.
pub proof fn lemma_set_profile_rule(s: LinkoraState, user: AccountId, username: Seq<u8>, creator_token: AccountId)
    ensures
        s.after_set_profile(user, username, creator_token) is Ok <==> (3 <= username.len() <= 32
            && forall|i: int| 0 <= i < username.len() ==> is_ascii_word_byte(#[trigger] username[i])),
        s.after_set_profile(user, username, creator_token) matches Ok(t) ==> t == (LinkoraState {
            profiles: s.profiles.insert(user, ProfileView { address: user, username, creator_token }),
            ..s
        }),
        s.after_set_profile(user, username, creator_token) matches Err(e) ==> e is InvalidUsername,
{
    lemma_username_rule(username);
}

/// A follow is refused exactly when the followee has blocked the follower;
/// otherwise the followee ends up in the follower's list.
pub proof fn lemma_follow_rule(s: LinkoraState, follower: AccountId, followee: AccountId)
    ensures
        s.after_follow(follower, followee) is Ok <==> !(s.blocks.contains_key(followee) && s.blocks[followee].contains(follower)),
        s.after_follow(follower, followee) matches Err(e) ==> e == ContractError::Blocked,
        s.after_follow(follower, followee) matches Ok(t) ==> t.following.contains_key(follower)
            && t.following[follower].contains(followee),
{
    if let Ok(t) = s.after_follow(follower, followee) {
        if !s.following_of(follower).contains(followee) {
            assert(t.following[follower][t.following[follower].len() - 1] == followee);
        }
    }
}

/// The author of an existing post can always delete it, and only the
/// author can; deleting removes that post and nothing else.
pub proof fn lemma_delete_post_rule(s: LinkoraState, author: AccountId, post_id: u64)
    ensures
        s.after_delete_post(author, post_id) is Ok <==> (s.posts.contains_key(post_id) && s.posts[post_id].author == author),
        !s.posts.contains_key(post_id) ==> s.after_delete_post(author, post_id) == Err::<LinkoraState, ContractError>(ContractError::PostDoesNotExist(post_id)),
        s.posts.contains_key(post_id) && s.posts[post_id].author != author
            ==> s.after_delete_post(author, post_id) == Err::<LinkoraState, ContractError>(ContractError::NotPostAuthor),
        s.after_delete_post(author, post_id) matches Ok(t) ==> t == (LinkoraState { posts: s.posts.remove(post_id), ..s }),
{
}

/// Creating a post succeeds exactly for a body of 1 to 280 bytes.
pub proof fn lemma_create_post_rule(s: LinkoraState, author: AccountId, content: Seq<u8>, timestamp: u64)
    ensures
        s.after_create_post(author, content, timestamp) is Ok <==> 1 <= content.len() <= 280,
        content.len() == 0 ==> s.after_create_post(author, content, timestamp)
            == Err::<LinkoraState, ContractError>(ContractError::InvalidContent(ContentError::Empty)),
        content.len() > 280 ==> s.after_create_post(author, content, timestamp)
            == Err::<LinkoraState, ContractError>(ContractError::InvalidContent(ContentError::TooLong)),
{
}

/// A like succeeds exactly when the user already liked the post or the post
/// exists; a new like adds the user to the likers and one to the count.
pub proof fn lemma_like_rule(s: LinkoraState, user: AccountId, post_id: u64)
    ensures
        s.after_like(user, post_id) is Ok <==> ((s.likes.contains_key(post_id) && s.likes[post_id].contains(user))
            || s.posts.contains_key(post_id)),
        s.after_like(user, post_id) matches Err(e) ==> e == ContractError::PostNotFound,
        !(s.likes.contains_key(post_id) && s.likes[post_id].contains(user)) && s.posts.contains_key(post_id)
            && s.posts[post_id].like_count < u64::MAX ==> (s.after_like(user, post_id) matches Ok(t)
            && t.posts[post_id].like_count == s.posts[post_id].like_count + 1
            && t.likes.contains_key(post_id) && t.likes[post_id].contains(user)),
{
}

/// A tip succeeds exactly for a positive amount on an existing post whose
/// author has not blocked the tipper, while the fee rate is at most 100%.
pub proof fn lemma_tip_rule(s: LinkoraState, tipper: AccountId, post_id: u64, amount: i128)
    ensures
        s.after_tip(tipper, post_id, amount) is Ok <==> (amount > 0 && s.posts.contains_key(post_id)
            && !(s.blocks.contains_key(s.posts[post_id].author) && s.blocks[s.posts[post_id].author].contains(tipper))
            && (s.config matches Some(c) ==> c.fee_bps <= 10_000)),
{
}

/// The fee is the tip times the rate over 10 000, rounded down.
pub proof fn lemma_fee_is_rounded_down(amount: int, fee_bps: int)
    requires
        0 <= amount,
        0 <= fee_bps,
    ensures
        fee_share(amount, fee_bps) * 10_000 <= amount * fee_bps < fee_share(amount, fee_bps) * 10_000 + 10_000,
{
    assert(0 <= amount * fee_bps) by (nonlinear_arith)
        requires 0 <= amount, 0 <= fee_bps;
    let p = amount * fee_bps;
    assert((p / 10_000) * 10_000 <= p < (p / 10_000) * 10_000 + 10_000) by (nonlinear_arith)
        requires 0 <= p;
}

/// The initialize call succeeds exactly once, storing what it is given.
pub proof fn lemma_initialize_rule(s: LinkoraState, admin: AccountId, treasury: AccountId, fee_bps: u32)
    ensures
        s.after_initialize(admin, treasury, fee_bps) is Ok <==> s.config is None,
        s.after_initialize(admin, treasury, fee_bps) matches Ok(t) ==> t == (LinkoraState {
            config: Some(Config { admin, treasury, fee_bps }),
            ..s
        }),
{
}

/// The approving signers are exactly the signers that are admins.
pub proof fn lemma_approvals_are_signing_admins(signers: Seq<AccountId>, admins: Seq<AccountId>)
    ensures
        approvals(signers, admins) == signers.to_set().intersect(admins.to_set()),
        approvals(signers, admins).subset_of(signers.to_set()),
        approvals(signers, admins).subset_of(admins.to_set()),
{
    assert(approvals(signers, admins) =~= signers.to_set().intersect(admins.to_set()));
}

/// Opening a pool succeeds exactly with at least one admin, a threshold
/// from 1 to the number of admins and a fresh pool id.
pub proof fn lemma_create_pool_rule(s: LinkoraState, pool_id: PoolId, token: AccountId, admins: Seq<AccountId>, threshold: u32)
    ensures
        s.after_create_pool(pool_id, token, admins, threshold) is Ok <==> (admins.len() > 0 && 1 <= threshold <= admins.len()
            && !s.pools.contains_key(pool_id)),
        s.after_create_pool(pool_id, token, admins, threshold) matches Ok(t) ==> t == (LinkoraState {
            pools: s.pools.insert(pool_id, PoolView { token, balance: 0, admins, threshold }),
            ..s
        }),
{
}

/// A deposit succeeds exactly for a positive amount, and adds it to the
/// pool's balance.
pub proof fn lemma_deposit_rule(s: LinkoraState, pool_id: PoolId, token: AccountId, amount: i128)
    requires
        s.pools.contains_key(pool_id) ==> s.pools[pool_id].balance + amount <= i128::MAX,
    ensures
        s.after_deposit(pool_id, token, amount) is Ok <==> amount > 0,
        s.after_deposit(pool_id, token, amount) matches Ok(t) ==> t.pools.contains_key(pool_id)
            && t.pools[pool_id].balance == (if s.pools.contains_key(pool_id) { s.pools[pool_id].balance as int } else { 0 }) + amount,
{
}

/// A withdrawal succeeds exactly for a positive amount from an existing
/// pool that holds it, when the distinct signers that are admins number at
/// least the threshold; it takes the amount off the balance.
pub proof fn lemma_withdraw_rule(s: LinkoraState, signers: Seq<AccountId>, pool_id: PoolId, amount: i128)
    ensures
        s.after_withdraw(signers, pool_id, amount) is Ok <==> (amount > 0 && s.pools.contains_key(pool_id)
            && signers.to_set().intersect(s.pools[pool_id].admins.to_set()).len() >= s.pools[pool_id].threshold
            && s.pools[pool_id].balance >= amount),
        amount > 0 && s.pools.contains_key(pool_id)
            && signers.to_set().intersect(s.pools[pool_id].admins.to_set()).len() < s.pools[pool_id].threshold
            ==> s.after_withdraw(signers, pool_id, amount) == Err::<LinkoraState, ContractError>(ContractError::InsufficientSigners),
        s.after_withdraw(signers, pool_id, amount) matches Ok(t) ==> t.pools[pool_id].balance == s.pools[pool_id].balance - amount
            && t.pools[pool_id].admins == s.pools[pool_id].admins,
{
    if s.pools.contains_key(pool_id) {
        lemma_approvals_are_signing_admins(signers, s.pools[pool_id].admins);
    }
}

/// A tip's fee is the tip times the configured rate over 10 000, rounded
/// down; it is paid to the configured treasury, exactly when it is positive.
pub proof fn lemma_tip_fee_rule(s: LinkoraState, tipper: AccountId, post_id: u64, token: AccountId, amount: i128)
    ensures
        s.after_tip(tipper, post_id, amount) is Ok ==> {
            let rec = s.tip_receipt(tipper, post_id, token, amount);
            let rate: int = match s.config { Some(c) => c.fee_bps as int, None => 0 };
            &&& rec.event.fee * 10_000 <= amount * rate < rec.event.fee * 10_000 + 10_000
            &&& rec.event.tipper == tipper && rec.event.post_id == post_id && rec.event.amount == amount
            &&& (rec.fee_payment is Some <==> rec.event.fee > 0)
            &&& (rec.fee_payment matches Some(p) ==> (s.config matches Some(c) && p == (Transfer {
                token,
                from: Party::Account(tipper),
                to: Party::Account(c.treasury),
                amount: rec.event.fee,
            })))
        },
{
    if s.after_tip(tipper, post_id, amount) is Ok {
        let rate: int = match s.config { Some(c) => c.fee_bps as int, None => 0 };
        lemma_fee_is_rounded_down(amount as int, rate);
        lemma_fee_share_bounds(amount as int, rate);
    }
}

/// Unfollowing takes the followee out of the follower's list and the
/// follower out of the followee's list, and changes no other entry of
/// either list, nor any other account's lists.
pub proof fn lemma_unfollow_rule(s: LinkoraState, follower: AccountId, followee: AccountId)
    requires
        s.valid(),
    ensures
        forall|y: AccountId| #[trigger] s.after_unfollow(follower, followee).following_of(follower).contains(y)
            <==> (s.following_of(follower).contains(y) && y != followee),
        forall|y: AccountId| #[trigger] s.after_unfollow(follower, followee).followers_of(followee).contains(y)
            <==> (s.followers_of(followee).contains(y) && y != follower),
        forall|x: AccountId| x != follower ==> #[trigger] s.after_unfollow(follower, followee).following_of(x) == s.following_of(x),
        forall|x: AccountId| x != followee ==> #[trigger] s.after_unfollow(follower, followee).followers_of(x) == s.followers_of(x),
{
    let t = s.after_unfollow(follower, followee);
    lemma_without_first(s.following_of(follower), followee);
    lemma_without_first(s.followers_of(followee), follower);
    if s.following_of(follower).contains(followee) {
        assert(s.followers_of(followee).contains(follower));
        assert(t.following_of(follower) == without_first(s.following_of(follower), followee));
        assert(t.followers_of(followee) == without_first(s.followers_of(followee), follower));
    } else {
        assert(!s.followers_of(followee).contains(follower));
    }
}

} // verus!
