//! The phrase buffer: the ordered sequence of buttons the user has selected,
//! the composed display text and pronunciation text, and the edits of the
//! most recent entry's substitution choices.

use vstd::prelude::*;
use vstd::string::StrSliceExecFns;
use vstd::string::StringExecFns;

use crate::button::Button;
use crate::button::spec_pronounce;
use crate::button::spec_resolved;
use crate::system::System;

verus! {

/// Parts joined by single spaces: empty for no parts, and no leading or
/// trailing space otherwise.
pub open spec fn spec_join(parts: Seq<Seq<char>>) -> Seq<char>
    decreases parts.len(),
{
    if parts.len() == 0 {
        Seq::empty()
    } else if parts.len() == 1 {
        parts[0]
    } else {
        spec_join(parts.drop_last()) + seq![' '] + parts.last()
    }
}

/// The raw labels of a sequence of buffer entries.
pub open spec fn labels_of(entries: Seq<Button>) -> Seq<Seq<char>> {
    entries.map_values(|b: Button| b.label@)
}

/// The resolved pronunciation texts of a sequence of buffer entries.
pub open spec fn pronounced_of(entries: Seq<Button>, sys: System) -> Seq<Seq<char>> {
    entries.map_values(|b: Button| spec_pronounce(spec_resolved(b, sys)))
}

/// The phrase buffer. Entries are independent copies of template buttons,
/// made at the moment of selection; each carries its own related and variant
/// choice.
#[derive(Debug)]
pub struct Panel {
    pub entries: Vec<Button>,
}

impl Default for Panel {
    /// An empty buffer.
    fn default() -> (r: Self)
        ensures
            r.entries@ == Seq::<Button>::empty(),
    {
        Panel { entries: Vec::new() }
    }
}

impl Panel {
    /// Appends an independent copy of `button` to the buffer.
    pub fn add_entry(&mut self, button: &Button)
        ensures
            final(self).entries@ == old(self).entries@.push(*button),
    {
        self.entries.push(button.duplicate());
    }

    /// The most recent entry, or `None` on an empty buffer.
    pub fn last_entry(&mut self) -> (r: Option<&Button>)
        ensures
            *final(self) == *old(self),
            match r {
                Some(b) => old(self).entries@.len() > 0 && *b == old(self).entries@.last(),
                None => old(self).entries@.len() == 0,
            },
    {
        if self.entries.len() == 0 {
            None
        } else {
            let idx = self.entries.len() - 1;
            Some(&self.entries[idx])
        }
    }

    /// The most recent entry's raw label, or `None` on an empty buffer.
    pub fn last_entry_label(&mut self) -> (r: Option<String>)
        ensures
            *final(self) == *old(self),
            match r {
                Some(s) => old(self).entries@.len() > 0 && s@ == old(self).entries@.last().label@,
                None => old(self).entries@.len() == 0,
            },
    {
        if self.entries.len() == 0 {
            None
        } else {
            Some(self.entries[self.entries.len() - 1].label.clone())
        }
    }

    /// The most recent entry's label after related-word substitution, or
    /// `None` on an empty buffer.
    pub fn last_entry_related_label(&mut self, system: &System) -> (r: Option<String>)
        ensures
            *final(self) == *old(self),
            match r {
                Some(s) => old(self).entries@.len() > 0 && s@ == crate::button::spec_stage_related(
                    old(self).entries@.last(),
                    *system,
                ).label@,
                None => old(self).entries@.len() == 0,
            },
    {
        if self.entries.len() == 0 {
            None
        } else {
            Some(self.entries[self.entries.len() - 1].get_related_word_label(system))
        }
    }

    /// Chooses variant `variant` for the most recent entry; a no-op on an
    /// empty buffer.
    pub fn set_last_entry_variant(&mut self, variant: usize)
        ensures
            old(self).entries@.len() == 0 ==> *final(self) == *old(self),
            old(self).entries@.len() > 0 ==> final(self).entries@ == old(self).entries@.update(
                old(self).entries@.len() - 1,
                (Button { variant: Some(variant), ..old(self).entries@.last() }),
            ),
    {
        if self.entries.len() == 0 {
            return ;
        }
        let last_idx = self.entries.len() - 1;
        self.entries[last_idx].set_variant(variant);
    }

    /// Discards the most recent entry's variant choice; a no-op on an empty
    /// buffer.
    pub fn clear_last_entry_variant(&mut self)
        ensures
            old(self).entries@.len() == 0 ==> *final(self) == *old(self),
            old(self).entries@.len() > 0 ==> final(self).entries@ == old(self).entries@.update(
                old(self).entries@.len() - 1,
                (Button { variant: None, ..old(self).entries@.last() }),
            ),
    {
        if self.entries.len() == 0 {
            return ;
        }
        let last_idx = self.entries.len() - 1;
        self.entries[last_idx].clear_variant();
    }

    /// Chooses related word `related` for the most recent entry and discards
    /// that entry's variant choice (variants are keyed by the post-related
    /// label, so a variant chosen for another base word would be stale); a
    /// no-op on an empty buffer.
    pub fn set_last_entry_related(&mut self, related: usize)
        ensures
            old(self).entries@.len() == 0 ==> *final(self) == *old(self),
            old(self).entries@.len() > 0 ==> final(self).entries@ == old(self).entries@.update(
                old(self).entries@.len() - 1,
                (Button { related: Some(related), variant: None, ..old(self).entries@.last() }),
            ),
    {
        if self.entries.len() == 0 {
            return ;
        }
        let last_idx = self.entries.len() - 1;
        self.entries[last_idx].set_related(related);
        self.entries[last_idx].clear_variant();
        proof {
            assert(final(self).entries@ =~= old(self).entries@.update(
                old(self).entries@.len() - 1,
                (Button { related: Some(related), variant: None, ..old(self).entries@.last() }),
            ));
        }
    }

    /// Removes the most recent entry; a no-op on an empty buffer.
    pub fn remove_last_entry(&mut self)
        ensures
            old(self).entries@.len() == 0 ==> final(self).entries@ == old(self).entries@,
            old(self).entries@.len() > 0 ==> final(self).entries@ == old(self).entries@.drop_last(),
    {
        let _ = self.entries.pop();
    }

    /// Replaces the most recent entry with a copy of `replacement` (appends
    /// when the buffer is empty).
    pub fn replace_last_entry(&mut self, replacement: &Button)
        ensures
            old(self).entries@.len() == 0 ==> final(self).entries@ == old(self).entries@.push(
                *replacement,
            ),
            old(self).entries@.len() > 0 ==> final(self).entries@ == old(
                self,
            ).entries@.drop_last().push(*replacement),
    {
        self.remove_last_entry();
        self.add_entry(replacement);
    }

    /// Empties the buffer.
    pub fn clear(&mut self)
        ensures
            final(self).entries@ == Seq::<Button>::empty(),
    {
        self.entries.clear();
        proof {
            assert(final(self).entries@ =~= Seq::<Button>::empty());
        }
    }

    /// The composed display text: all raw labels joined by single spaces.
    pub fn get_text(&self) -> (r: String)
        ensures
            r@ == spec_join(labels_of(self.entries@)),
    {
        let mut out = String::new();
        let n = self.entries.len();
        let mut i: usize = 0;
        proof {
            assert(labels_of(self.entries@.take(0)) =~= Seq::<Seq<char>>::empty());
        }
        while i < n
            invariant
                n == self.entries@.len(),
                i <= n,
                out@ == spec_join(labels_of(self.entries@.take(i as int))),
            decreases n - i,
        {
            proof {
                reveal_strlit(" ");
                assert(" "@ =~= seq![' ']);
                assert(labels_of(self.entries@.take(i + 1)).drop_last() =~= labels_of(
                    self.entries@.take(i as int),
                ));
                assert(labels_of(self.entries@.take(i + 1)).last() == self.entries@[i as int].label@);
            }
            if i > 0 {
                out.append(" ");
            }
            out.append(self.entries[i].label.as_str());
            proof {
                if i == 0 {
                    assert(out@ =~= labels_of(self.entries@.take(1))[0]);
                }
            }
            i += 1;
        }
        proof {
            assert(self.entries@.take(n as int) =~= self.entries@);
        }
        out
    }

    /// The composed pronunciation text: every entry's resolved pronunciation
    /// joined by single spaces.
    pub fn get_pronouncible_text(&self, system: &System) -> (r: String)
        ensures
            r@ == spec_join(pronounced_of(self.entries@, *system)),
    {
        let mut out = String::new();
        let n = self.entries.len();
        let mut i: usize = 0;
        proof {
            assert(pronounced_of(self.entries@.take(0), *system) =~= Seq::<Seq<char>>::empty());
        }
        while i < n
            invariant
                n == self.entries@.len(),
                i <= n,
                out@ == spec_join(pronounced_of(self.entries@.take(i as int), *system)),
            decreases n - i,
        {
            proof {
                reveal_strlit(" ");
                assert(" "@ =~= seq![' ']);
                assert(pronounced_of(self.entries@.take(i + 1), *system).drop_last()
                    =~= pronounced_of(self.entries@.take(i as int), *system));
                assert(pronounced_of(self.entries@.take(i + 1), *system).last() == spec_pronounce(
                    spec_resolved(self.entries@[i as int], *system),
                ));
            }
            let part = self.entries[i].get_pronouncible_text(system);
            if i > 0 {
                out.append(" ");
            }
            out.append(part.as_str());
            proof {
                if i == 0 {
                    assert(out@ =~= pronounced_of(self.entries@.take(1), *system)[0]);
                }
            }
            i += 1;
        }
        proof {
            assert(self.entries@.take(n as int) =~= self.entries@);
        }
        out
    }

    /// Finishes a speak request, the speech sink having reported `success`.
    /// Only a successful utterance flushes the buffer: on failure the
    /// composed phrase is kept, unchanged, for retry.
    pub fn finish_speak(&mut self, success: bool)
        ensures
            success ==> final(self).entries@ == Seq::<Button>::empty(),
            !success ==> *final(self) == *old(self),
    {
        if success {
            self.clear();
        }
    }
}

} // verus!
