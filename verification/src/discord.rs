//! What a webhook post carries, and the record of recent posts that keeps
//! the posting rate under the permitted level.

use vstd::prelude::*;
use heapless::spsc::Queue;

use crate::time::{utc_now, Instant};

verus! {

/// Posts permitted within [`SAFETY_STANDARDS_TIME_NANOS`].
pub const SAFETY_STANDARDS_NUMBER: usize = 5;

/// [`SAFETY_STANDARDS_NUMBER`] posts are permitted within this many nanoseconds (one minute).
pub const SAFETY_STANDARDS_TIME_NANOS: i128 = 60_000_000_000;

/// Bound on the magnitude of any instant's nanosecond count.
pub const INSTANT_NANOS_BOUND: i128 = 0x1_0000_0000_0000_0000_0000_0000;

/// The body of a webhook post.
#[derive(Debug)]
pub struct DiscordWebhookPostData {
    pub content: Option<String>,
    pub username: Option<String>,
    pub avatar_url: Option<String>,
}

impl Default for DiscordWebhookPostData {
    fn default() -> (r: Self)
        ensures
            r.content is None,
            r.username is None,
            r.avatar_url is None,
    {
        DiscordWebhookPostData { content: None, username: None, avatar_url: None }
    }
}

impl DiscordWebhookPostData {
    /// A post whose message is `content`, with the webhook's own user name and avatar.
    pub fn with_content(content: String) -> (r: Self)
        ensures
            r.content == Some(content),
            r.username is None,
            r.avatar_url is None,
    {
        DiscordWebhookPostData { content: Some(content), ..Default::default() }
    }
}

/// The JSON text that `serde_json` writes for an optional string.
pub uninterp spec fn json_of_optional_string(s: Option<Seq<char>>) -> Seq<char>;

/// The optional string's text, taken by its view.
pub open spec fn optional_text(s: Option<String>) -> Option<Seq<char>> {
    match s {
        Some(x) => Some(x@),
        None => None,
    }
}

/// `serde_json::to_string` on an optional string: `null` for `None`, and the
/// string quoted and escaped otherwise (the contract names that text). The
/// call cannot fail for a string; the `Err` arm is never taken.
#[verifier::external_body]
fn json_optional_string(s: &Option<String>) -> (r: String)
    ensures
        r@ == json_of_optional_string(optional_text(*s)),
        s is None ==> r@ == "null"@,
{
    match serde_json::to_string(s) {
        Ok(text) => text,
        Err(_) => String::new(),
    }
}

/// The JSON body of a post: an object with the fields `content`, `username`
/// and `avatar_url`, in that order, each as `serde_json` writes it.
pub open spec fn spec_post_body(data: DiscordWebhookPostData) -> Seq<char> {
    "{\"content\":"@ + json_of_optional_string(optional_text(data.content)) + ",\"username\":"@
        + json_of_optional_string(optional_text(data.username)) + ",\"avatar_url\":"@
        + json_of_optional_string(optional_text(data.avatar_url)) + "}"@
}

impl DiscordWebhookPostData {
    /// The JSON text sent as the body of the post.
    pub fn post_body(&self) -> (r: String)
        ensures
            r@ == spec_post_body(*self),
    {
        let mut out = String::from_str("{\"content\":");
        let content = json_optional_string(&self.content);
        out.append(content.as_str());
        out.append(",\"username\":");
        let username = json_optional_string(&self.username);
        out.append(username.as_str());
        out.append(",\"avatar_url\":");
        let avatar_url = json_optional_string(&self.avatar_url);
        out.append(avatar_url.as_str());
        out.append("}");
        out
    }
}

/// A `heapless` single-producer single-consumer queue of six slots
/// (room for five items), holding post times.
#[verifier::external_body]
pub struct PostQueue {
    queue: Queue<i128, 6>,
}

/// The items of a `heapless` single-producer single-consumer queue of
/// six slots (room for five items), front first.
pub uninterp spec fn queue_items(q: PostQueue) -> Seq<i128>;

/// `heapless::spsc::Queue::new`: an empty queue.
#[verifier::external_body]
fn queue_new() -> (q: PostQueue)
    ensures
        queue_items(q) == Seq::<i128>::empty(),
{
    PostQueue { queue: Queue::new() }
}

/// `heapless::spsc::Queue::peek`: the front item, if any, copied out.
#[verifier::external_body]
fn queue_peek(q: &PostQueue) -> (r: Option<i128>)
    ensures
        queue_items(*q).len() == 0 ==> r is None,
        queue_items(*q).len() > 0 ==> r == Some(queue_items(*q)[0]),
{
    q.queue.peek().copied()
}

/// `heapless::spsc::Queue::dequeue`: removes and returns the front item.
#[verifier::external_body]
fn queue_dequeue(q: &mut PostQueue) -> (r: Option<i128>)
    ensures
        queue_items(*old(q)).len() == 0 ==> r is None && queue_items(*final(q)) == queue_items(
            *old(q),
        ),
        queue_items(*old(q)).len() > 0 ==> r == Some(queue_items(*old(q))[0]) && queue_items(
            *final(q),
        ) == queue_items(*old(q)).drop_first(),
{
    q.queue.dequeue()
}

/// `heapless::spsc::Queue::enqueue`: appends `x` at the back unless the
/// queue already holds five items (its size less one).
#[verifier::external_body]
fn queue_enqueue(q: &mut PostQueue, x: i128) -> (ok: bool)
    ensures
        queue_items(*old(q)).len() < 5 ==> ok && queue_items(*final(q)) == queue_items(
            *old(q),
        ).push(x),
        queue_items(*old(q)).len() >= 5 ==> !ok && queue_items(*final(q)) == queue_items(*old(q)),
{
    match q.queue.enqueue(x) {
        Ok(()) => true,
        Err(_) => false,
    }
}

/// Whether a post recorded at `t` (nanoseconds since the epoch) is older,
/// at `now`, than the rate-limiting window.
pub open spec fn is_stale(t: int, now: int) -> bool {
    now - t > SAFETY_STANDARDS_TIME_NANOS
}

/// The record left once the stale posts at its front are dropped.
pub open spec fn pruned(s: Seq<i128>, now: int) -> Seq<i128>
    decreases s.len(),
{
    if s.len() > 0 && is_stale(s[0] as int, now) {
        pruned(s.drop_first(), now)
    } else {
        s
    }
}

/// Whether a post at `now` is permitted after the record `s`.
pub open spec fn admitted(s: Seq<i128>, now: int) -> bool {
    pruned(s, now).len() < SAFETY_STANDARDS_NUMBER
}

/// The record after a post is attempted at `now`.
pub open spec fn after_post(s: Seq<i128>, now: int) -> Seq<i128> {
    if admitted(s, now) {
        pruned(s, now).push(now as i128)
    } else {
        pruned(s, now)
    }
}

/// Every recorded time is the nanosecond count of some [`Instant`].
pub open spec fn within_bound(s: Seq<i128>) -> bool {
    forall|i: int| 0 <= i < s.len() ==> -INSTANT_NANOS_BOUND < #[trigger] s[i] < INSTANT_NANOS_BOUND
}

/// Times recorded in the order in which they happened.
pub open spec fn sorted(s: Seq<i128>) -> bool {
    forall|i: int, j: int| 0 <= i <= j < s.len() ==> s[i] <= s[j]
}

/// How many of the recorded posts lie within the window that ends at `now`.
pub open spec fn recent_count(s: Seq<i128>, now: int) -> nat
    decreases s.len(),
{
    if s.len() == 0 {
        0
    } else {
        (if is_stale(s[0] as int, now) {
            0nat
        } else {
            1nat
        }) + recent_count(s.drop_first(), now)
    }
}

proof fn lemma_recent_count_all(s: Seq<i128>, now: int)
    requires
        forall|i: int| 0 <= i < s.len() ==> !is_stale(#[trigger] s[i] as int, now),
    ensures
        recent_count(s, now) == s.len(),
    decreases s.len(),
{
    if s.len() > 0 {
        assert(!is_stale(s[0] as int, now));
        assert forall|i: int| 0 <= i < s.drop_first().len() implies !is_stale(
            #[trigger] s.drop_first()[i] as int,
            now,
        ) by {
            assert(s.drop_first()[i] == s[i + 1]);
        }
        lemma_recent_count_all(s.drop_first(), now);
    }
}

proof fn lemma_pruned_is_recent(s: Seq<i128>, now: int)
    requires
        sorted(s),
    ensures
        pruned(s, now).len() == recent_count(s, now),
        forall|i: int|
            0 <= i < pruned(s, now).len() ==> !is_stale(#[trigger] pruned(s, now)[i] as int, now),
        sorted(pruned(s, now)),
    decreases s.len(),
{
    if s.len() > 0 {
        if is_stale(s[0] as int, now) {
            assert(sorted(s.drop_first())) by {
                assert forall|i: int, j: int|
                    0 <= i <= j < s.drop_first().len() implies s.drop_first()[i]
                    <= s.drop_first()[j] by {
                    assert(s[i + 1] <= s[j + 1]);
                }
            }
            lemma_pruned_is_recent(s.drop_first(), now);
        } else {
            assert forall|i: int| 0 <= i < s.len() implies !is_stale(#[trigger] s[i] as int, now) by {
                assert(s[0] <= s[i]);
            }
            lemma_recent_count_all(s, now);
        }
    }
}

/// A post is refused exactly when the permitted number of posts already
/// recorded lie within the minute before it: for a record kept in time
/// order, the post at `now` is permitted if and only if fewer than
/// [`SAFETY_STANDARDS_NUMBER`] recorded posts are within one minute of `now`.
pub proof fn law_refused_iff_window_full(s: Seq<i128>, now: int)
    requires
        sorted(s),
    ensures
        admitted(s, now) <==> recent_count(s, now) < SAFETY_STANDARDS_NUMBER,
{
    lemma_pruned_is_recent(s, now);
}

/// Posting keeps the record in time order, never holds more than the
/// permitted number of posts, and leaves only posts within the minute
/// before `now`; this holds whenever the record was in time order, held no
/// more than the permitted number, and `now` is not earlier than its posts.
pub proof fn law_post_keeps_record(s: Seq<i128>, now: int)
    requires
        sorted(s),
        s.len() <= SAFETY_STANDARDS_NUMBER,
        forall|i: int| 0 <= i < s.len() ==> #[trigger] s[i] <= now,
        -INSTANT_NANOS_BOUND < now < INSTANT_NANOS_BOUND,
    ensures
        sorted(after_post(s, now)),
        after_post(s, now).len() <= SAFETY_STANDARDS_NUMBER,
        forall|i: int|
            0 <= i < after_post(s, now).len() ==> !is_stale(#[trigger] after_post(s, now)[i] as int, now),
        forall|i: int| 0 <= i < after_post(s, now).len() ==> #[trigger] after_post(s, now)[i] <= now,
        admitted(s, now) ==> after_post(s, now).last() == now,
{
    lemma_pruned_is_recent(s, now);
    lemma_pruned_suffix(s, now);
    let p = pruned(s, now);
    if admitted(s, now) {
        let q = p.push(now as i128);
        assert forall|i: int, j: int| 0 <= i <= j < q.len() implies q[i] <= q[j] by {
            if j == q.len() - 1 {
                if i < p.len() {
                    let k = choose|k: int| 0 <= k < s.len() && s[k] == p[i];
                    assert(s[k] <= now);
                }
            }
        }
        assert forall|i: int| 0 <= i < q.len() implies !is_stale(#[trigger] q[i] as int, now) by {
            if i < p.len() {
                assert(q[i] == p[i]);
            }
        }
        assert forall|i: int| 0 <= i < q.len() implies #[trigger] q[i] <= now by {
            if i < p.len() {
                let k = choose|k: int| 0 <= k < s.len() && s[k] == p[i];
                assert(s[k] <= now);
            }
        }
    } else {
        assert forall|i: int| 0 <= i < p.len() implies #[trigger] p[i] <= now by {
            let k = choose|k: int| 0 <= k < s.len() && s[k] == p[i];
            assert(s[k] <= now);
        }
    }
}

/// The record after posts attempted at the times `posts` (nanoseconds since
/// the epoch), in that order, starting from an empty record: the view of a
/// [`PostHistory`] made by [`PostHistory::new`] after one call of
/// [`PostHistory::record_post_at`] per time.
pub open spec fn history_after(posts: Seq<int>) -> Seq<i128>
    decreases posts.len(),
{
    if posts.len() == 0 {
        Seq::<i128>::empty()
    } else {
        after_post(history_after(posts.drop_last()), posts.last())
    }
}

/// Times that never go backwards.
pub open spec fn non_decreasing(posts: Seq<int>) -> bool {
    forall|i: int, j: int| 0 <= i <= j < posts.len() ==> posts[i] <= posts[j]
}

/// Under a clock that never goes backwards, the record reached from an
/// empty one by any sequence of attempted posts holds at most
/// [`SAFETY_STANDARDS_NUMBER`] posts, oldest first, none later than the last
/// attempt and none more than a minute before it; so its newest and oldest
/// posts lie within a minute of each other.
pub proof fn law_history_over_posts(posts: Seq<int>)
    requires
        non_decreasing(posts),
        forall|i: int| 0 <= i < posts.len() ==> -INSTANT_NANOS_BOUND < #[trigger] posts[i] < INSTANT_NANOS_BOUND,
        posts.len() > 0,
    ensures
        sorted(history_after(posts)),
        history_after(posts).len() <= SAFETY_STANDARDS_NUMBER,
        forall|i: int|
            0 <= i < history_after(posts).len() ==> #[trigger] history_after(posts)[i] <= posts.last()
                && !is_stale(history_after(posts)[i] as int, posts.last()),
        forall|i: int, j: int|
            0 <= i <= j < history_after(posts).len() ==> history_after(posts)[j] - history_after(
                posts,
            )[i] <= SAFETY_STANDARDS_TIME_NANOS,
    decreases posts.len(),
{
    let prev = posts.drop_last();
    let now = posts.last();
    if prev.len() > 0 {
        assert forall|i: int| 0 <= i < prev.len() implies -INSTANT_NANOS_BOUND < #[trigger] prev[i]
            < INSTANT_NANOS_BOUND by {
            assert(prev[i] == posts[i]);
        }
        law_history_over_posts(prev);
        let h = history_after(prev);
        assert(prev.last() <= now);
        assert forall|i: int| 0 <= i < h.len() implies #[trigger] h[i] <= now by {
            assert(h[i] <= prev.last());
        }
        law_post_keeps_record(h, now);
    } else {
        law_post_keeps_record(Seq::<i128>::empty(), now);
    }
    let h2 = history_after(posts);
    assert(h2 == after_post(history_after(prev), now));
    assert forall|i: int, j: int| 0 <= i <= j < h2.len() implies h2[j] - h2[i]
        <= SAFETY_STANDARDS_TIME_NANOS by {
        assert(after_post(history_after(prev), now)[j] <= now);
        assert(!is_stale(after_post(history_after(prev), now)[i] as int, now));
    }
}

proof fn lemma_pruned_kept(s: Seq<i128>, now: int)
    ensures
        forall|i: int|
            0 <= i < pruned(s, now).len() ==> s.contains(#[trigger] pruned(s, now)[i]),
        pruned(s, now).len() > 0 ==> !is_stale(pruned(s, now)[0] as int, now),
    decreases s.len(),
{
    lemma_pruned_suffix(s, now);
    assert forall|i: int| 0 <= i < pruned(s, now).len() implies s.contains(
        #[trigger] pruned(s, now)[i],
    ) by {
        let k = choose|k: int| 0 <= k < s.len() && s[k] == pruned(s, now)[i];
    }
    if s.len() > 0 && is_stale(s[0] as int, now) {
        lemma_pruned_kept(s.drop_first(), now);
    }
}

proof fn lemma_pruned_suffix(s: Seq<i128>, now: int)
    ensures
        pruned(s, now).len() <= s.len(),
        forall|i: int|
            0 <= i < pruned(s, now).len() ==> exists|k: int|
                0 <= k < s.len() && s[k] == #[trigger] pruned(s, now)[i],
    decreases s.len(),
{
    if s.len() > 0 && is_stale(s[0] as int, now) {
        lemma_pruned_suffix(s.drop_first(), now);
        let p = pruned(s, now);
        assert forall|i: int| 0 <= i < p.len() implies exists|k: int|
            0 <= k < s.len() && s[k] == #[trigger] p[i] by {
            let k = choose|k: int| 0 <= k < s.drop_first().len() && s.drop_first()[k] == p[i];
            assert(s[k + 1] == p[i]);
        }
    } else {
        assert forall|i: int| 0 <= i < s.len() implies exists|k: int|
            0 <= k < s.len() && s[k] == #[trigger] pruned(s, now)[i] by {
            assert(s[i] == pruned(s, now)[i]);
        }
    }
}

/// A post was refused: its frequency would exceed the permitted level.
#[derive(Debug, Clone, Copy, PartialEq, Eq)]
pub struct PostRateExceeded;

/// The times of recent posts, oldest first.
pub struct PostHistory {
    history: PostQueue,
}

impl View for PostHistory {
    type V = Seq<i128>;

    closed spec fn view(&self) -> Seq<i128> {
        queue_items(self.history)
    }
}

impl PostHistory {
    #[verifier::type_invariant]
    closed spec fn inv(self) -> bool {
        within_bound(queue_items(self.history))
    }

    /// An empty record.
    pub fn new() -> (r: Self)
        ensures
            r@ == Seq::<i128>::empty(),
    {
        PostHistory { history: queue_new() }
    }

    /// Records a post made at `now`: first forgets the posts older than the
    /// window, then records `now` if fewer than the permitted number remain,
    /// and refuses the post otherwise.
    pub fn record_post_at(&mut self, now: Instant) -> (r: Result<(), PostRateExceeded>)
        ensures
            final(self)@ == after_post(old(self)@, now.total_nanos()),
            r is Ok <==> admitted(old(self)@, now.total_nanos()),
            sorted(old(self)@) ==> (r is Ok <==> recent_count(old(self)@, now.total_nanos())
                < SAFETY_STANDARDS_NUMBER),
            r is Ok ==> final(self)@.len() > 0 && final(self)@.last() == now.total_nanos(),
            forall|i: int|
                0 <= i < final(self)@.len() && (r is Err || i < final(self)@.len() - 1)
                    ==> old(self)@.contains(#[trigger] final(self)@[i]),
            sorted(old(self)@) ==> forall|i: int|
                0 <= i < final(self)@.len() ==> now.total_nanos() - #[trigger] final(self)@[i]
                    <= 60_000_000_000,
    {
        proof {
            if sorted(old(self)@) {
                law_refused_iff_window_full(old(self)@, now.total_nanos());
                lemma_pruned_is_recent(old(self)@, now.total_nanos());
            }
            lemma_pruned_kept(old(self)@, now.total_nanos());
        }
        proof {
            use_type_invariant(&*self);
        }
        let t = now.nanos_since_epoch();
        let mut queue = queue_new();
        std::mem::swap(&mut queue, &mut self.history);
        let ghost s0 = queue_items(queue);
        loop
            invariant
                pruned(queue_items(queue), t as int) == pruned(s0, t as int),
                within_bound(queue_items(queue)),
                -INSTANT_NANOS_BOUND < t < INSTANT_NANOS_BOUND,
            ensures
                queue_items(queue) == pruned(s0, t as int),
            decreases queue_items(queue).len(),
        {
            match queue_peek(&queue) {
                Some(front) => {
                    if t - front > SAFETY_STANDARDS_TIME_NANOS {
                        let ghost before = queue_items(queue);
                        let _ = queue_dequeue(&mut queue);
                        assert(forall|i: int|
                            0 <= i < queue_items(queue).len() ==> #[trigger] queue_items(queue)[i]
                                == before[i + 1]);
                    } else {
                        break ;
                    }
                },
                None => {
                    break ;
                },
            }
        }
        let ok = queue_enqueue(&mut queue, t);
        self.history = queue;
        if ok {
            Ok(())
        } else {
            Err(PostRateExceeded)
        }
    }

    /// Records a post made now, by the system clock, as
    /// [`Self::record_post_at`] does; leaves the record as it was when the
    /// clock cannot be read.
    pub fn record_post(&mut self) -> (r: Result<(), PostError>)
        ensures
            r == Err::<(), PostError>(PostError::ClockBeforeEpoch) ==> final(self)@ == old(self)@,
            r != Err::<(), PostError>(PostError::ClockBeforeEpoch) ==> exists|now: Instant|
                {
                    &&& now.secs >= 0
                    &&& now.nanos < 1_000_000_000
                    &&& final(self)@ == after_post(old(self)@, #[trigger] now.total_nanos())
                    &&& (r is Ok <==> admitted(old(self)@, now.total_nanos()))
                },
    {
        match utc_now() {
            Some(now) => match self.record_post_at(now) {
                Ok(()) => Ok(()),
                Err(PostRateExceeded) => Err(PostError::RateExceeded),
            },
            None => Err(PostError::ClockBeforeEpoch),
        }
    }
}

/// Why a post made now was refused.
#[derive(Clone, Copy, Debug, PartialEq, Eq)]
pub enum PostError {
    /// Its frequency would exceed the permitted level.
    RateExceeded,
    /// The system clock reads before the Unix epoch (or further after it
    /// than an `i64` count of seconds holds).
    ClockBeforeEpoch,
}

} // verus!
