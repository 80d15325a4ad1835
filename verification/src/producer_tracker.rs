//! A producer-side position tracker: a claim counter handing out slot
//! numbers, and a published watermark that producers advance strictly in
//! order, each waiting until the predecessor has published.

use vstd::prelude::*;

verus! {

/// Tracks how far producers have claimed and published. Claims hand out
/// consecutive slot numbers starting at zero; the published watermark is
/// the highest slot published so far, starting one below zero.
#[derive(Debug)]
pub struct ProducerTracker {
    /// The next slot number to hand out.
    pub claimed: i64,
    /// The highest slot published so far; one below zero before the
    /// first publication.
    pub published: i64,
}

impl Default for ProducerTracker {
    /// A tracker with no claims and nothing published.
    fn default() -> (r: Self)
        ensures
            r.claimed == 0,
            r.published == -1,
    {
        ProducerTracker { claimed: 0, published: -1 }
    }
}

impl ProducerTracker {
    /// Claim the next slot number.
    pub fn claim(&mut self) -> (r: i64)
        requires
            old(self).claimed < i64::MAX,
        ensures
            r == old(self).claimed,
            final(self).claimed == old(self).claimed + 1,
            final(self).published == old(self).published,
    {
        let c = self.claimed;
        self.claimed = self.claimed + 1;
        c
    }

    /// Publish slot `value`. Publications go up strictly in order, so
    /// this waits until the predecessor slot has been published.
    pub fn publish(&mut self, value: i64)
        requires
            old(self).published == value - 1,
        ensures
            final(self).published == value,
            final(self).claimed == old(self).claimed,
    {
        self.published = value;
    }

    /// Wait until the published watermark reaches `min_published_value`,
    /// and return the watermark.
    pub fn wait_for_publish(&self, min_published_value: i64) -> (r: i64)
        requires
            self.published >= min_published_value,
        ensures
            r == self.published,
    {
        self.published
    }

    /// The highest slot published so far.
    pub fn current_published(&self) -> (r: i64)
        ensures
            r == self.published,
    {
        self.published
    }
}

} // verus!
