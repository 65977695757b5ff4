//! A rate limiter with a sliding window of a minute.
use crate::text::same_text;
use vstd::prelude::*;
use vstd::string::*;

verus! {

/// The length of the window, in nanoseconds.
pub const WINDOW: u64 = 60_000_000_000;

/// Counts the requests of each client. Times are nanoseconds on a clock that does not go back.
#[derive(Debug)]
pub struct SlidingWindowRateLimiter {
    pub events: Vec<(String, Vec<u64>)>,
}

/// The requests that the limiter remembers, by client.
pub open spec fn remembered(events: Seq<(String, Vec<u64>)>) -> Map<Seq<char>, Seq<u64>>
    decreases events.len(),
{
    if events.len() == 0 {
        Map::empty()
    } else {
        remembered(events.drop_last()).insert(events.last().0@, events.last().1@)
    }
}

impl View for SlidingWindowRateLimiter {
    type V = Map<Seq<char>, Seq<u64>>;

    open spec fn view(&self) -> Map<Seq<char>, Seq<u64>> {
        remembered(self.events@)
    }
}

/// The times without those at the front that lie before `start`.
pub open spec fn since(times: Seq<u64>, start: int) -> Seq<u64>
    decreases times.len(),
{
    if times.len() > 0 && times[0] < start {
        since(times.skip(1), start)
    } else {
        times
    }
}

/// The requests of a client that count at a time.
pub open spec fn recent(times: Seq<u64>, now: u64) -> Seq<u64> {
    since(times, now - WINDOW)
}

/// Whether a request passes, given the earlier ones that count.
pub open spec fn passes(times: Seq<u64>, limit: u32, now: u64) -> bool {
    recent(times, now).len() < limit
}

/// What is remembered of a client after a request.
pub open spec fn after_request(times: Seq<u64>, limit: u32, now: u64) -> Seq<u64> {
    if passes(times, limit, now) {
        recent(times, now).push(now)
    } else {
        recent(times, now)
    }
}

/// The requests of a client that are remembered; none of a client that has sent none.
pub open spec fn times_of(m: Map<Seq<char>, Seq<u64>>, key: Seq<char>) -> Seq<u64> {
    if m.dom().contains(key) {
        m[key]
    } else {
        seq![]
    }
}

/// No client is listed twice.
pub open spec fn distinct(events: Seq<(String, Vec<u64>)>) -> bool {
    forall|i: int, j: int|
        0 <= i < j < events.len() ==> (#[trigger] events[i]).0@ != (#[trigger] events[j]).0@
}

proof fn lemma_remembered(events: Seq<(String, Vec<u64>)>)
    requires
        distinct(events),
    ensures
        forall|i: int|
            0 <= i < events.len() ==> remembered(events).dom().contains(
                (#[trigger] events[i]).0@,
            ) && remembered(events)[events[i].0@] == events[i].1@,
        forall|k: Seq<char>| #[trigger]
            remembered(events).dom().contains(k) ==> exists|i: int|
                0 <= i < events.len() && (#[trigger] events[i]).0@ == k,
    decreases events.len(),
{
    if events.len() > 0 {
        let init = events.drop_last();
        assert forall|i: int, j: int| 0 <= i < j < init.len() implies (#[trigger] init[i]).0@ != (
        #[trigger] init[j]).0@ by {
            assert(init[i] == events[i] && init[j] == events[j]);
        }
        lemma_remembered(init);
        assert forall|i: int| 0 <= i < events.len() implies remembered(events).dom().contains(
            (#[trigger] events[i]).0@,
        ) && remembered(events)[events[i].0@] == events[i].1@ by {
            if i < init.len() {
                assert(init[i] == events[i]);
            }
        }
        assert forall|k: Seq<char>| #[trigger] remembered(events).dom().contains(
            k,
        ) implies exists|i: int| 0 <= i < events.len() && (#[trigger] events[i]).0@ == k by {
            if k == events.last().0@ {
                assert(events[events.len() - 1].0@ == k);
            } else {
                assert(remembered(init).dom().contains(k));
                let i = choose|i: int| 0 <= i < init.len() && (#[trigger] init[i]).0@ == k;
                assert(events[i].0@ == k);
            }
        }
    }
}

proof fn lemma_since(times: Seq<u64>, n: int, start: int)
    requires
        0 <= n <= times.len(),
        forall|i: int| 0 <= i < n ==> #[trigger] times[i] < start,
        n < times.len() ==> times[n] >= start,
    ensures
        since(times, start) == times.skip(n),
    decreases n,
{
    if n == 0 {
        assert(times.skip(0) =~= times);
    } else {
        assert(times[0] < start);
        let rest = times.skip(1);
        assert forall|i: int| 0 <= i < n - 1 implies #[trigger] rest[i] < start by {
            assert(rest[i] == times[i + 1]);
        }
        if n < times.len() {
            assert(rest[n - 1] == times[n]);
        }
        lemma_since(rest, n - 1, start);
        assert(rest.skip(n - 1) =~= times.skip(n));
    }
}

/// The requests that count.
fn keep_recent(times: &Vec<u64>, now: u64) -> (kept: Vec<u64>)
    ensures
        kept@ == recent(times@, now),
{
    let mut n: usize = 0;
    while n < times.len() && now >= WINDOW && times[n] < now - WINDOW
        invariant
            n <= times@.len(),
            forall|i: int| 0 <= i < n ==> #[trigger] times@[i] < now - WINDOW,
        decreases times.len() - n,
    {
        n += 1;
    }
    proof {
        lemma_since(times@, n as int, now - WINDOW);
    }
    let mut kept: Vec<u64> = Vec::new();
    let mut i: usize = n;
    while i < times.len()
        invariant
            n <= i <= times@.len(),
            kept@ == times@.subrange(n as int, i as int),
        decreases times.len() - i,
    {
        kept.push(times[i]);
        i += 1;
        proof {
            assert(kept@ =~= times@.subrange(n as int, i as int));
        }
    }
    proof {
        assert(kept@ =~= times@.skip(n as int));
    }
    kept
}

impl SlidingWindowRateLimiter {
    /// No client is listed twice.
    pub open spec fn wf(&self) -> bool {
        distinct(self.events@)
    }

    /// A limiter that has seen no request.
    pub fn new() -> (l: SlidingWindowRateLimiter)
        ensures
            l.wf(),
            l@ == Map::<Seq<char>, Seq<u64>>::empty(),
    {
        SlidingWindowRateLimiter { events: Vec::new() }
    }

    /// Whether a request of a client passes at a time, which is remembered if it does. Without a
    /// limit every request passes.
    pub fn allow(&mut self, key: &str, limit_per_minute: u32, now: u64) -> (r: bool)
        requires
            old(self).wf(),
        ensures
            final(self).wf(),
            if limit_per_minute == 0 {
                r && final(self)@ == old(self)@
            } else {
                let times = times_of(old(self)@, key@);
                &&& r == passes(times, limit_per_minute, now)
                &&& final(self)@ == old(self)@.insert(
                    key@,
                    after_request(times, limit_per_minute, now),
                )
            },
    {
        if limit_per_minute == 0 {
            return true;
        }
        let ghost before = self.events@;
        proof {
            lemma_remembered(before);
        }
        let mut at: usize = 0;
        while at < self.events.len() && !same_text(self.events[at].0.as_str(), key)
            invariant
                at <= self.events@.len(),
                self.events@ == before,
                forall|j: int| 0 <= j < at ==> (#[trigger] self.events@[j]).0@ != key@,
            decreases self.events.len() - at,
        {
            at += 1;
        }
        if at < self.events.len() {
            let mut kept = keep_recent(&self.events[at].1, now);
            let pass = kept.len() < limit_per_minute as usize;
            if pass {
                kept.push(now);
            }
            proof {
                assert(before[at as int].0@ == key@);
                assert(times_of(remembered(before), key@) == before[at as int].1@);
                assert(kept@ =~= after_request(before[at as int].1@, limit_per_minute, now));
            }
            self.events[at].1 = kept;
            proof {
                let after = self.events@;
                assert(after[at as int].0 == before[at as int].0);
                assert forall|i: int, j: int| 0 <= i < j < after.len() implies (
                #[trigger] after[i]).0@ != (#[trigger] after[j]).0@ by {
                    assert(after[i].0 == before[i].0);
                    assert(after[j].0 == before[j].0);
                }
                lemma_remembered(after);
                let want = remembered(before).insert(key@, kept@);
                assert(remembered(after) =~= want) by {
                    assert forall|k: Seq<char>| #[trigger] remembered(after).dom().contains(k)
                        <==> want.dom().contains(k) by {
                        if remembered(after).dom().contains(k) {
                            let i = choose|i: int|
                                0 <= i < after.len() && (#[trigger] after[i]).0@ == k;
                            assert(before[i].0@ == k);
                        }
                        if want.dom().contains(k) && k != key@ {
                            let i = choose|i: int|
                                0 <= i < before.len() && (#[trigger] before[i]).0@ == k;
                            assert(after[i].0@ == k);
                        }
                        if k == key@ {
                            assert(after[at as int].0@ == k);
                        }
                    }
                    assert forall|k: Seq<char>| #[trigger] remembered(after).dom().contains(
                        k,
                    ) implies remembered(after)[k] == want[k] by {
                        let i = choose|i: int|
                            0 <= i < after.len() && (#[trigger] after[i]).0@ == k;
                        if i != at {
                            assert(after[i] == before[i]);
                            assert(k != key@);
                        }
                    }
                }
            }
            pass
        } else {
            proof {
                assert(!remembered(before).dom().contains(key@));
            }
            let mut times: Vec<u64> = Vec::new();
            times.push(now);
            proof {
                assert(recent(seq![], now) =~= Seq::<u64>::empty());
                assert(times@ =~= after_request(seq![], limit_per_minute, now));
            }
            self.events.push((key.to_owned(), times));
            proof {
                let after = self.events@;
                assert(after.drop_last() =~= before);
            }
            true
        }
    }
}

/// The times at which requests of one client passed, of requests at the given times.
pub open spec fn passed(requests: Seq<u64>, limit: u32) -> Seq<u64>
    decreases requests.len(),
{
    if requests.len() == 0 {
        seq![]
    } else {
        let before = passed(requests.drop_last(), limit);
        if passes(queue(requests.drop_last(), limit), limit, requests.last()) {
            before.push(requests.last())
        } else {
            before
        }
    }
}

/// What is remembered of one client after requests at the given times.
pub open spec fn queue(requests: Seq<u64>, limit: u32) -> Seq<u64>
    decreases requests.len(),
{
    if requests.len() == 0 {
        seq![]
    } else {
        after_request(queue(requests.drop_last(), limit), limit, requests.last())
    }
}

proof fn lemma_since_is_suffix(times: Seq<u64>, start: int) -> (n: int)
    ensures
        0 <= n <= times.len(),
        since(times, start) == times.skip(n),
        forall|i: int| 0 <= i < n ==> #[trigger] times[i] < start,
    decreases times.len(),
{
    if times.len() > 0 && times[0] < start {
        let m = lemma_since_is_suffix(times.skip(1), start);
        assert(times.skip(1).skip(m) =~= times.skip(m + 1));
        assert forall|i: int| 0 <= i < m + 1 implies #[trigger] times[i] < start by {
            if i > 0 {
                assert(times.skip(1)[i - 1] == times[i]);
            }
        }
        m + 1
    } else {
        assert(times.skip(0) =~= times);
        0
    }
}

/// What is remembered is the end of what passed; the rest lies before the window of the last
/// request.
proof fn lemma_queue(requests: Seq<u64>, limit: u32) -> (n: int)
    requires
        forall|i: int, j: int|
            0 <= i <= j < requests.len() ==> #[trigger] requests[i] <= #[trigger] requests[j],
    ensures
        0 <= n <= passed(requests, limit).len(),
        queue(requests, limit) == passed(requests, limit).skip(n),
        queue(requests, limit).len() <= limit,
        forall|i: int|
            0 <= i < n ==> requests.len() > 0 && #[trigger] passed(requests, limit)[i]
                < requests.last() - WINDOW,
    decreases requests.len(),
{
    let p = passed(requests, limit);
    if requests.len() == 0 {
        assert(p.skip(0) =~= queue(requests, limit));
        0
    } else {
        let init = requests.drop_last();
        let now = requests.last();
        assert forall|i: int, j: int| 0 <= i <= j < init.len() implies #[trigger] init[i]
            <= #[trigger] init[j] by {
            assert(init[i] == requests[i] && init[j] == requests[j]);
        }
        let n = lemma_queue(init, limit);
        let before = passed(init, limit);
        let q = queue(init, limit);
        let m = lemma_since_is_suffix(q, now - WINDOW);
        assert(q.skip(m) =~= before.skip(n + m));
        assert forall|i: int| 0 <= i < n + m implies #[trigger] before[i] < now - WINDOW by {
            if i >= n {
                assert(q[i - n] == before[i]);
            } else {
                assert(before[i] < init.last() - WINDOW);
                assert(init.last() == requests[requests.len() - 2]);
                assert(requests[requests.len() - 2] <= requests[requests.len() - 1]);
            }
        }
        if passes(q, limit, now) {
            assert(before.skip(n + m).push(now) =~= before.push(now).skip(n + m));
            assert forall|i: int| 0 <= i < n + m implies #[trigger] p[i] < now - WINDOW by {
                assert(p[i] == before[i]);
            }
        }
        n + m
    }
}

/// No client gets more requests through than the limit within a window: of any run of requests
/// that passed and that is one longer than the limit, the last came more than a window after
/// the first.
pub proof fn limit_holds_in_every_window(requests: Seq<u64>, limit: u32, i: int)
    requires
        limit > 0,
        forall|a: int, b: int|
            0 <= a <= b < requests.len() ==> #[trigger] requests[a] <= #[trigger] requests[b],
        0 <= i,
        i + limit < passed(requests, limit).len(),
    ensures
        passed(requests, limit)[i + limit] - passed(requests, limit)[i] > WINDOW,
    decreases requests.len(),
{
    let init = requests.drop_last();
    let now = requests.last();
    let before = passed(init, limit);
    assert forall|a: int, b: int| 0 <= a <= b < init.len() implies #[trigger] init[a]
        <= #[trigger] init[b] by {
        assert(init[a] == requests[a] && init[b] == requests[b]);
    }
    if i + limit < before.len() {
        limit_holds_in_every_window(init, limit, i);
    } else {
        let n = lemma_queue(init, limit);
        let q = queue(init, limit);
        let m = lemma_since_is_suffix(q, now - WINDOW);
        assert(passes(q, limit, now));
        assert(recent(q, now).len() == q.len() - m);
        assert(before.len() == i + limit);
        assert(i < n + m);
        if i >= n {
            assert(q[i - n] == before[i]);
        } else {
            assert(before[i] < init.last() - WINDOW);
            assert(init.last() == requests[requests.len() - 2]);
            assert(requests[requests.len() - 2] <= requests[requests.len() - 1]);
        }
    }
}

/// A request of a client, under a limit, at a time.
pub struct Request {
    pub client: Seq<char>,
    pub limit: u32,
    pub time: u64,
}

/// What the limiter remembers after requests.
pub open spec fn memory(requests: Seq<Request>) -> Map<Seq<char>, Seq<u64>>
    decreases requests.len(),
{
    if requests.len() == 0 {
        Map::empty()
    } else {
        let before = memory(requests.drop_last());
        let r = requests.last();
        if r.limit == 0 {
            before
        } else {
            before.insert(r.client, after_request(times_of(before, r.client), r.limit, r.time))
        }
    }
}

/// Whether the last of the requests passes.
pub open spec fn last_passes(requests: Seq<Request>) -> bool {
    let r = requests.last();
    r.limit == 0 || passes(times_of(memory(requests.drop_last()), r.client), r.limit, r.time)
}

/// The times at which requests of a client passed under some limit.
pub open spec fn passed_of(requests: Seq<Request>, client: Seq<char>) -> Seq<u64>
    decreases requests.len(),
{
    if requests.len() == 0 {
        seq![]
    } else {
        let before = passed_of(requests.drop_last(), client);
        let r = requests.last();
        if r.client == client && r.limit != 0 && last_passes(requests) {
            before.push(r.time)
        } else {
            before
        }
    }
}

/// How many of the times are not before `start`.
pub open spec fn count_since(times: Seq<u64>, start: int) -> nat
    decreases times.len(),
{
    if times.len() == 0 {
        0
    } else if times.last() >= start {
        count_since(times.drop_last(), start) + 1
    } else {
        count_since(times.drop_last(), start)
    }
}

/// The requests come in the order of their times.
pub open spec fn in_order(requests: Seq<Request>) -> bool {
    forall|i: int, j: int|
        0 <= i <= j < requests.len() ==> (#[trigger] requests[i]).time <= (
        #[trigger] requests[j]).time
}

proof fn lemma_count(times: Seq<u64>, n: int, start: int)
    requires
        0 <= n <= times.len(),
        forall|i: int| 0 <= i < n ==> #[trigger] times[i] < start,
        forall|i: int| n <= i < times.len() ==> #[trigger] times[i] >= start,
    ensures
        count_since(times, start) == times.len() - n,
    decreases times.len(),
{
    if times.len() > 0 {
        let init = times.drop_last();
        if n < times.len() {
            lemma_count(init, n, start);
        } else {
            lemma_count(init, n - 1, start);
        }
    }
}

/// What is remembered of a client is the end of what passed; the rest lies before the window of
/// the last request. What passed stands in order.
proof fn lemma_memory(requests: Seq<Request>, client: Seq<char>) -> (n: int)
    requires
        in_order(requests),
    ensures
        0 <= n <= passed_of(requests, client).len(),
        times_of(memory(requests), client) == passed_of(requests, client).skip(n),
        forall|i: int|
            0 <= i < n ==> requests.len() > 0 && #[trigger] passed_of(requests, client)[i]
                < requests.last().time - WINDOW,
        forall|i: int|
            0 <= i < passed_of(requests, client).len() ==> requests.len() > 0
                && #[trigger] passed_of(requests, client)[i] <= requests.last().time,
        forall|i: int, j: int|
            0 <= i <= j < passed_of(requests, client).len() ==> #[trigger] passed_of(
                requests,
                client,
            )[i] <= #[trigger] passed_of(requests, client)[j],
    decreases requests.len(),
{
    let p = passed_of(requests, client);
    if requests.len() == 0 {
        assert(p.skip(0) =~= times_of(memory(requests), client));
        0
    } else {
        let init = requests.drop_last();
        let r = requests.last();
        assert forall|i: int, j: int| 0 <= i <= j < init.len() implies (#[trigger] init[i]).time
            <= (#[trigger] init[j]).time by {
            assert(init[i] == requests[i] && init[j] == requests[j]);
        }
        if init.len() > 0 {
            assert(init.last() == requests[requests.len() - 2]);
            assert(requests[requests.len() - 2].time <= requests[requests.len() - 1].time);
        }
        let n = lemma_memory(init, client);
        let before = passed_of(init, client);
        let q = times_of(memory(init), client);
        if r.client != client || r.limit == 0 {
            assert(times_of(memory(requests), client) == q);
            n
        } else {
            let m = lemma_since_is_suffix(q, r.time - WINDOW);
            assert(q.skip(m) =~= before.skip(n + m));
            assert forall|i: int| 0 <= i < n + m implies #[trigger] before[i] < r.time
                - WINDOW by {
                if i >= n {
                    assert(q[i - n] == before[i]);
                }
            }
            if last_passes(requests) {
                assert(p == before.push(r.time));
                assert(before.skip(n + m).push(r.time) =~= p.skip(n + m));
                assert forall|i: int| 0 <= i < n + m implies #[trigger] p[i] < r.time
                    - WINDOW by {
                    assert(p[i] == before[i]);
                }
                assert forall|i: int, j: int| 0 <= i <= j < p.len() implies #[trigger] p[i]
                    <= #[trigger] p[j] by {
                    if j < before.len() {
                        assert(before[i] <= before[j]);
                    } else if i < before.len() {
                        assert(before[i] <= init.last().time);
                    }
                }
                assert forall|i: int| 0 <= i < p.len() implies #[trigger] p[i] <= r.time by {
                    if i < before.len() {
                        assert(before[i] <= init.last().time);
                    }
                }
            }
            n + m
        }
    }
}

proof fn lemma_since_stops(times: Seq<u64>, start: int)
    ensures
        since(times, start).len() > 0 ==> since(times, start)[0] >= start,
    decreases times.len(),
{
    if times.len() > 0 && times[0] < start {
        lemma_since_stops(times.skip(1), start);
    }
}

/// A request passes exactly if it has no limit, or if fewer requests of its client than the limit
/// have passed in the window before it; whatever other clients there are, and whatever the limits
/// of the earlier requests were.
pub proof fn request_passes_below_the_limit(requests: Seq<Request>)
    requires
        in_order(requests),
        requests.len() > 0,
    ensures
        last_passes(requests) == (requests.last().limit == 0 || count_since(
            passed_of(requests.drop_last(), requests.last().client),
            requests.last().time - WINDOW,
        ) < requests.last().limit),
{
    let init = requests.drop_last();
    let r = requests.last();
    let start = r.time - WINDOW;
    assert forall|i: int, j: int| 0 <= i <= j < init.len() implies (#[trigger] init[i]).time <= (
    #[trigger] init[j]).time by {
        assert(init[i] == requests[i] && init[j] == requests[j]);
    }
    if init.len() > 0 {
        assert(init.last() == requests[requests.len() - 2]);
        assert(requests[requests.len() - 2].time <= requests[requests.len() - 1].time);
    }
    let p = passed_of(init, r.client);
    let n = lemma_memory(init, r.client);
    let q = times_of(memory(init), r.client);
    let m = lemma_since_is_suffix(q, start);
    lemma_since_stops(q, start);
    assert forall|i: int| 0 <= i < n + m implies #[trigger] p[i] < start by {
        if i >= n {
            assert(q[i - n] == p[i]);
        }
    }
    assert forall|i: int| n + m <= i < p.len() implies #[trigger] p[i] >= start by {
        assert(q.skip(m)[0] == p[n + m]);
        assert(p[n + m] <= p[i]);
    }
    lemma_count(p, n + m, start);
    assert(recent(q, r.time).len() == p.len() - (n + m));
}

/// The window is a minute: a request counts against those that come within sixty seconds of it, and
/// against no later one.
pub proof fn requests_count_for_a_minute(time: u64, now: u64)
    requires
        time <= now,
    ensures
        recent(seq![time], now).len() == 1 <==> now - time <= 60 * 1_000_000_000,
        passes(seq![time], 1, now) <==> now - time > 60 * 1_000_000_000,
        passes(seq![], 1, now),
{
    let one = seq![time];
    assert(one.skip(1) =~= seq![]);
    reveal_with_fuel(since, 2);
}

} // verus!
