//! Which journal entries of a unit are sent as its log.
//!
//! Where `tail` asks for the last `n` messages, the journal is read from
//! before the last `n` entries (or from its beginning where it has fewer);
//! without `follow`, at most `n` messages are then sent, otherwise all
//! remaining ones and the new ones as they come.
use vstd::prelude::*;
use crate::text::{concat2, views};

verus! {

/// What has been sent of a log so far, and how much may follow.
#[derive(Debug)]
pub struct JournalReading {
    /// The number of messages to send at most, where it is bounded.
    pub limit: Option<usize>,
    /// The number of messages sent so far.
    pub sent: usize,
    /// New messages are sent as they come.
    pub follow: bool,
}

impl JournalReading {
    /// A reading that asks for the last `tail` messages, if given, and
    /// follows new messages where `follow` is set.
    pub fn new(tail: Option<usize>, follow: bool) -> (r: JournalReading)
        ensures
            r.limit == (if follow { None } else { tail }),
            r.sent == 0,
            r.follow == follow,
    {
        JournalReading { limit: if follow { None } else { tail }, sent: 0, follow }
    }

    /// The number of entries to step back from the end of the journal, so
    /// that the next entry is the first of the last `count`.
    pub fn entries_to_skip(count: usize) -> (r: u64)
        requires
            count < u64::MAX,
        ensures
            r == count + 1,
    {
        count as u64 + 1
    }

    /// Fewer entries than asked for could be skipped: the journal is read
    /// from its beginning.
    pub fn beginning_reached(count: usize, skipped: u64) -> (r: bool)
        requires
            count < u64::MAX,
        ensures
            r == (skipped < count + 1),
    {
        skipped < JournalReading::entries_to_skip(count)
    }

    /// Another message is sent where one is available: unless the reading
    /// is bounded and the bound is reached.
    pub fn wants_more(&self) -> (r: bool)
        ensures
            r == match self.limit {
                None => true,
                Some(n) => self.sent < n,
            },
    {
        match self.limit {
            None => true,
            Some(n) => self.sent < n,
        }
    }

    /// Records that a message was sent.
    pub fn record_sent(&mut self)
        requires
            old(self).sent < usize::MAX,
        ensures
            final(self).sent == old(self).sent + 1,
            final(self).limit == old(self).limit,
            final(self).follow == old(self).follow,
    {
        self.sent = self.sent + 1;
    }

    /// The line sent for a message: the message and a newline.
    pub fn message_line(message: &str) -> (r: String)
        ensures
            r@ == message@ + "\n"@,
    {
        concat2(message, "\n")
    }
}

/// The messages a reading without `follow` sends from the journal entries
/// of a unit, oldest first: the last `n` of them (all where there are
/// fewer) where `tail` is `Some(n)`, otherwise all, each as its text and a
/// newline.
pub open spec fn sent_lines(entries: Seq<Seq<char>>, tail: Option<usize>) -> Seq<Seq<char>> {
    let first = match tail {
        Some(n) => if n < entries.len() {
            entries.len() - n
        } else {
            0
        },
        None => 0,
    };
    entries.subrange(first, entries.len() as int).map_values(|m: Seq<char>| m + "\n"@)
}

impl JournalReading {
    /// The lines sent for the journal entries of a unit, see
    /// [`sent_lines`].
    pub fn messages_to_send(entries: &Vec<String>, tail: Option<usize>) -> (r: Vec<String>)
        ensures
            views(r@) == sent_lines(views(entries@), tail),
    {
        let first: usize = match tail {
            Some(n) => if n < entries.len() {
                entries.len() - n
            } else {
                0
            },
            None => 0,
        };
        let ghost e = views(entries@);
        let mut r: Vec<String> = Vec::new();
        let mut i: usize = first;
        while i < entries.len()
            invariant
                first <= i <= entries@.len(),
                e == views(entries@),
                views(r@) == e.subrange(first as int, i as int).map_values(|m: Seq<char>| m + "\n"@),
            decreases entries@.len() - i,
        {
            let ghost before = r@;
            r.push(JournalReading::message_line(entries[i].as_str()));
            assert(e.subrange(first as int, i + 1) =~= e.subrange(first as int, i as int).push(e[i as int]));
            assert(views(r@) =~= views(before).push(e[i as int] + "\n"@));
            assert(views(r@) =~= e.subrange(first as int, i + 1).map_values(|m: Seq<char>| m + "\n"@));
            i = i + 1;
        }
        r
    }
}

/// A bounded reading sends no more messages than asked for.
pub proof fn lemma_bounded_reading_stops(r: JournalReading)
    requires
        r.limit matches Some(n) && r.sent >= n,
    ensures
        !(match r.limit {
            None => true,
            Some(n) => r.sent < n,
        }),
{
}

/// A reading for the last `n` messages sends the last `min(n, k)` of the
/// `k` entries, oldest first, each followed by a newline; without a tail
/// it sends every entry.
pub proof fn lemma_sent_lines_are_the_last_entries(entries: Seq<Seq<char>>, tail: Option<usize>)
    ensures
        ({
            let r = sent_lines(entries, tail);
            let count = match tail {
                Some(n) => if n < entries.len() {
                    n as int
                } else {
                    entries.len() as int
                },
                None => entries.len() as int,
            };
            &&& r.len() == count
            &&& forall|i: int| 0 <= i < r.len() ==> #[trigger] r[i] == entries[entries.len() - count + i] + "\n"@
        }),
{
}

} // verus!
