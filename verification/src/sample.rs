//! Source of randomized re-arm durations.
//!
//! Every time a cell settles into a state, the duration it stays there is
//! drawn from a state-specific range. The source is injected so that the
//! production game can draw real random numbers while tests script an exact
//! sequence: a scripted source replays its values (clamped into the range
//! that is asked for) and is fully deterministic, so everything downstream
//! of it is too.

use vstd::prelude::*;

use rand::Rng;

verus! {

/// The value a scripted draw over `lo..hi` yields with the cursor at
/// `cur`: the scripted value there clamped into the range, or `lo` once
/// the script is exhausted.
pub open spec fn peek_at(script: Seq<u64>, cur: int, lo: u64, hi: u64) -> u64
    recommends
        lo < hi,
{
    let raw = if 0 <= cur < script.len() {
        script[cur]
    } else {
        lo
    };
    if raw < lo {
        lo
    } else if raw >= hi {
        (hi - 1) as u64
    } else {
        raw
    }
}

/// Supplier of fresh re-arm durations, either truly random or scripted.
pub struct ReArmSource {
    scripted: bool,
    values: Vec<u64>,
    next: usize,
}

/// Relies on `rand::Rng::gen_range`, reached through `rand::thread_rng`,
/// over the half-open integer range `lo..hi`: it panics on an empty range
/// and otherwise returns a value of that range.
#[verifier::external_body]
fn sample_uniform(lo: u64, hi: u64) -> (r: u64)
    requires
        lo < hi,
    ensures
        lo <= r < hi,
{
    rand::thread_rng().gen_range(lo..hi)
}

impl ReArmSource {
    /// Whether this source replays a script instead of drawing at random.
    pub closed spec fn is_scripted(&self) -> bool {
        self.scripted
    }

    /// The scripted values (empty for a random source).
    pub closed spec fn script(&self) -> Seq<u64> {
        self.values@
    }

    /// How many scripted values have been consumed.
    pub closed spec fn cursor(&self) -> int {
        self.next as int
    }

    /// The value the next scripted draw over `lo..hi` yields.
    pub open spec fn peek_spec(&self, lo: u64, hi: u64) -> u64
        recommends
            lo < hi,
    {
        peek_at(self.script(), self.cursor(), lo, hi)
    }

    /// The cursor after one draw: a scripted value is consumed only while
    /// the script lasts.
    pub open spec fn next_cursor_spec(&self) -> int {
        if self.cursor() < self.script().len() {
            self.cursor() + 1
        } else {
            self.cursor()
        }
    }

    /// A source that draws real random numbers.
    pub fn system_random() -> (s: ReArmSource)
        ensures
            !s.is_scripted(),
    {
        ReArmSource { scripted: false, values: Vec::new(), next: 0 }
    }

    /// A deterministic source that replays `values` in order.
    pub fn scripted(values: Vec<u64>) -> (s: ReArmSource)
        ensures
            s.is_scripted(),
            s.script() == values@,
            s.cursor() == 0,
    {
        ReArmSource { scripted: true, values, next: 0 }
    }

    /// Draws one duration from the half-open range `lo..hi`. A scripted
    /// source returns exactly its next value clamped into the range; a
    /// random source returns some value of the range.
    pub fn sample(&mut self, lo: u64, hi: u64) -> (r: u64)
        requires
            lo < hi,
        ensures
            lo <= r < hi,
            final(self).is_scripted() == old(self).is_scripted(),
            final(self).script() == old(self).script(),
            old(self).is_scripted() ==> r == old(self).peek_spec(lo, hi),
            old(self).is_scripted() ==> final(self).cursor() == old(self).next_cursor_spec(),
            !old(self).is_scripted() ==> final(self).cursor() == old(self).cursor(),
    {
        if self.scripted {
            let raw: u64 = if self.next < self.values.len() {
                let v = self.values[self.next];
                self.next = self.next + 1;
                v
            } else {
                lo
            };
            if raw < lo {
                lo
            } else if raw >= hi {
                hi - 1
            } else {
                raw
            }
        } else {
            sample_uniform(lo, hi)
        }
    }
}

} // verus!
