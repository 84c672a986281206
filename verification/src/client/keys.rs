//! The keys of password-protected channels.

use crate::text;
use vstd::prelude::*;

verus! {

/// The key that belongs to each channel that has one.
pub struct ChannelKeys {
    entries: Vec<(String, String)>,
}

/// The association that a list of entries stands for, where a later entry replaces an earlier one
/// of the same name.
spec fn association(entries: Seq<(String, String)>) -> Map<Seq<char>, Seq<char>>
    decreases entries.len(),
{
    if entries.len() == 0 {
        Map::empty()
    } else {
        association(entries.drop_last()).insert(entries.last().0@, entries.last().1@)
    }
}

impl View for ChannelKeys {
    type V = Map<Seq<char>, Seq<char>>;

    closed spec fn view(&self) -> Map<Seq<char>, Seq<char>> {
        association(self.entries@)
    }
}

impl ChannelKeys {
    /// No channel has a key.
    pub fn new() -> (r: ChannelKeys)
        ensures
            r@ == Map::<Seq<char>, Seq<char>>::empty(),
    {
        ChannelKeys { entries: Vec::new() }
    }

    /// Gives `channel` the key `key`, in place of the one that it had.
    pub fn insert(&mut self, channel: String, key: String)
        ensures
            final(self)@ == old(self)@.insert(channel@, key@),
    {
        self.entries.push((channel, key));
        assert(self.entries@.drop_last() =~= old(self).entries@);
    }

    /// The key of `channel`.
    pub fn get(&self, channel: &str) -> (r: Option<&String>)
        ensures
            r is Some <==> self@.contains_key(channel@),
            r matches Some(k) ==> k@ == self@[channel@],
    {
        let mut n: usize = self.entries.len();
        assert(self.entries@.take(n as int) =~= self.entries@);
        while n > 0
            invariant
                n <= self.entries.len(),
                self@.contains_key(channel@) <==> association(
                    self.entries@.take(n as int),
                ).contains_key(channel@),
                self@.contains_key(channel@) ==> self@[channel@] == association(
                    self.entries@.take(n as int),
                )[channel@],
            decreases n,
        {
            assert(self.entries@.take(n as int).drop_last() =~= self.entries@.take(n - 1));
            n = n - 1;
            if text::same(self.entries[n].0.as_str(), channel) {
                return Some(&self.entries[n].1);
            }
        }
        None
    }
}

} // verus!
