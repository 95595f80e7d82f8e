use std::sync::Arc;
use vstd::prelude::*;

verus! {

/// Relies on `Arc::clone`: the new handle points to the same value.
#[verifier::external_body]
pub(crate) fn share<T>(a: &Arc<T>) -> (r: Arc<T>)
    ensures
        r == *a,
{
    Arc::clone(a)
}

/// How long a fetched value stays fresh by default: ten minutes, in nanoseconds.
pub const DEFAULT_MAX_AGE_NANOS: i128 = 600_000_000_000;

/// The single-slot, single-flight state of a cache in front of a slow source.
///
/// Times are nanoseconds since the Unix epoch. The slot holds the value last fetched,
/// with the time after which it is stale; `updating` is set while one fetch is in flight.
/// Whoever drives the cache asks `get` what to do, performs a fetch only when told
/// to, and reports its outcome to `complete`.
pub struct Cache<T> {
    cached: Option<(i128, Arc<T>)>,
    updating: bool,
    max_age: i128,
}

/// What a caller of `get` is to do.
pub enum Lookup<T> {
    /// A fresh value is cached: use it.
    Cached(Arc<T>),
    /// Nothing fresh is cached and no fetch is in flight: fetch now, then `complete`.
    Fetch,
    /// A fetch is in flight: wait a moment, then look up again.
    Wait,
}

/// The time after which a value fetched at `now` is stale.
pub open spec fn expiry_of(now: i128, max_age: i128) -> i128 {
    if now > i128::MAX - max_age {
        i128::MAX
    } else {
        (now + max_age) as i128
    }
}

impl<T> Cache<T> {
    /// The cached value with its expiry, if any.
    pub closed spec fn slot(&self) -> Option<(i128, T)> {
        match self.cached {
            Some((e, v)) => Some((e, *v)),
            None => None,
        }
    }

    /// Whether a fetch is in flight.
    pub closed spec fn is_updating(&self) -> bool {
        self.updating
    }

    /// How long a fetched value stays fresh.
    pub closed spec fn max_age_spec(&self) -> i128 {
        self.max_age
    }

    pub open spec fn well_formed(&self) -> bool {
        self.max_age_spec() >= 0
    }

    /// The value of the slot if it is still fresh at `now` (stale once its expiry has passed).
    pub open spec fn fresh_value(&self, now: i128) -> Option<T> {
        match self.slot() {
            Some((e, v)) => if now <= e {
                Some(v)
            } else {
                None
            },
            None => None,
        }
    }

    /// What a lookup at `now` asks of its caller.
    pub open spec fn lookup_action(&self, now: i128) -> Lookup<T> {
        match self.fresh_value(now) {
            Some(v) => Lookup::Cached(Arc::new(v)),
            None => if self.is_updating() {
                Lookup::Wait
            } else {
                Lookup::Fetch
            },
        }
    }

    /// Whether a lookup at `now` starts a fetch (and so marks one in flight).
    pub open spec fn lookup_starts_fetch(&self, now: i128) -> bool {
        self.fresh_value(now) is None && !self.is_updating()
    }

    /// The state after a fetch is reported at `now`: a value fetched is installed with
    /// a new expiry, a failure leaves the slot as it was; either way no fetch is in flight.
    pub open spec fn completed_slot(&self, now: i128, result: Option<T>) -> Option<(i128, T)> {
        match result {
            Some(v) => Some((expiry_of(now, self.max_age_spec()), v)),
            None => self.slot(),
        }
    }

    /// An empty cache whose values stay fresh for `max_age` nanoseconds.
    pub fn new(max_age: i128) -> (r: Cache<T>)
        requires
            max_age >= 0,
        ensures
            r.well_formed(),
            r.slot() is None,
            !r.is_updating(),
            r.max_age_spec() == max_age,
    {
        Cache { cached: None, updating: false, max_age }
    }

    /// Decides what a reader arriving at `now` does. A fresh value is handed out at once,
    /// even while a fetch is in flight; otherwise the first reader is told to fetch and
    /// marks the fetch in flight, and every later reader is told to wait.
    pub fn get(&mut self, now: i128) -> (r: Lookup<T>)
        ensures
            r == old(self).lookup_action(now),
            final(self).slot() == old(self).slot(),
            final(self).max_age_spec() == old(self).max_age_spec(),
            final(self).is_updating() == (old(self).is_updating() || old(self).lookup_starts_fetch(now)),
    {
        if let Some((expiry, value)) = &self.cached {
            if now <= *expiry {
                return Lookup::Cached(share(value));
            }
        }
        if self.updating {
            Lookup::Wait
        } else {
            self.updating = true;
            Lookup::Fetch
        }
    }

    /// Records the outcome of the fetch in flight, finished at `now`: `Some` installs the
    /// new value, fresh until `now` plus the maximum age; `None` (a failed fetch) keeps the
    /// previous value, if any. No fetch is in flight afterwards.
    pub fn complete(&mut self, now: i128, result: Option<T>)
        requires
            old(self).well_formed(),
        ensures
            final(self).slot() == old(self).completed_slot(now, result),
            !final(self).is_updating(),
            final(self).max_age_spec() == old(self).max_age_spec(),
    {
        if let Some(value) = result {
            let expiry = if now > i128::MAX - self.max_age {
                i128::MAX
            } else {
                now + self.max_age
            };
            self.cached = Some((expiry, Arc::new(value)));
        }
        self.updating = false;
    }

    /// Marks a refresh in flight for a driver that refreshes on its own schedule; `false`
    /// where one is already in flight, which is then left alone.
    pub fn begin_refresh(&mut self) -> (r: bool)
        ensures
            r == !old(self).is_updating(),
            final(self).is_updating(),
            final(self).slot() == old(self).slot(),
            final(self).max_age_spec() == old(self).max_age_spec(),
    {
        if self.updating {
            false
        } else {
            self.updating = true;
            true
        }
    }

    /// The cached value, fresh or not, without starting any fetch.
    pub fn peek(&self) -> (r: Option<Arc<T>>)
        ensures
            r == (match self.slot() {
                Some((e, v)) => Some(Arc::new(v)),
                None => None::<Arc<T>>,
            }),
    {
        match &self.cached {
            Some((_, value)) => Some(share(value)),
            None => None,
        }
    }
}

/// Single flight: while a fetch is in flight, no lookup starts another one; each gets a
/// fresh value or waits. (`get` marks in flight the fetch it starts and keeps the mark;
/// only `complete` clears it.)
pub proof fn lemma_single_flight<T>(c: Cache<T>, now: i128)
    requires
        c.is_updating(),
    ensures
        !c.lookup_starts_fetch(now),
        !(c.lookup_action(now) is Fetch),
{
}

/// After a successful fetch completed at `t`, every lookup up to the new expiry hands out
/// the new value and starts nothing; a lookup after the expiry starts one new fetch.
pub proof fn lemma_fresh_after_success<T>(c: Cache<T>, done: Cache<T>, t: i128, v: T, now: i128)
    requires
        c.well_formed(),
        done.slot() == c.completed_slot(t, Some(v)),
        !done.is_updating(),
    ensures
        expiry_of(t, c.max_age_spec()) >= t,
        now <= expiry_of(t, c.max_age_spec()) ==> done.lookup_action(now) == Lookup::Cached(Arc::new(v))
            && !done.lookup_starts_fetch(now),
        now > expiry_of(t, c.max_age_spec()) ==> done.lookup_action(now) is Fetch && done.lookup_starts_fetch(
            now,
        ),
{
}

/// A failed fetch keeps the previous value: the slot is unchanged, so every lookup at
/// which that value is fresh still hands it out, and `peek` still returns it.
pub proof fn lemma_failure_keeps_value<T>(c: Cache<T>, done: Cache<T>, t: i128, now: i128)
    requires
        done.slot() == c.completed_slot(t, None),
    ensures
        done.slot() == c.slot(),
        done.fresh_value(now) == c.fresh_value(now),
{
}

} // verus!
