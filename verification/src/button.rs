//! The atomic selectable unit of a board: a label, an optional pronunciation
//! override, an optional image reference, an optional navigation target, and
//! two instance-local resolution indices (related word and variant) that are
//! only meaningful while the button sits in the phrase buffer.

use vstd::prelude::*;

use crate::system::System;
use crate::system::table_lookup;
use crate::system::table_get;

verus! {

/// Stage one of resolution: when a related-word index is chosen and the
/// related table has an entry list for the button's own label with that index
/// in range, the alternate button; in every other case the button itself.
pub open spec fn spec_stage_related(b: Button, sys: System) -> Button {
    match b.related {
        Some(i) => match table_lookup(sys.related@, b.label@) {
            Some(rs) => if i < rs.len() {
                rs[i as int]
            } else {
                b
            },
            None => b,
        },
        None => b,
    }
}

/// Stage two of resolution: when a variant index is chosen on the original
/// button and the variant table has an entry list for `base`'s label (the
/// stage-one result) with that index in range, the alternate button; in every
/// other case `base` itself.
pub open spec fn spec_apply_variant(base: Button, variant: Option<usize>, sys: System) -> Button {
    match variant {
        Some(j) => match table_lookup(sys.variants@, base.label@) {
            Some(vs) => if j < vs.len() {
                vs[j as int]
            } else {
                base
            },
            None => base,
        },
        None => base,
    }
}

/// The effective button a buffer entry displays and speaks as: related-word
/// substitution first, then variant substitution keyed by the substituted
/// label.
pub open spec fn spec_resolved(b: Button, sys: System) -> Button {
    spec_apply_variant(spec_stage_related(b, sys), b.variant, sys)
}

/// What a button sounds like: its pronunciation override when present, else
/// its label.
pub open spec fn spec_pronounce(b: Button) -> Seq<char> {
    match b.pronunciation {
        Some(p) => p@,
        None => b.label@,
    }
}

/// Law: the variant index is applied against the *post-related* label. The
/// variant table is consulted for the label of the stage-one result, never
/// for the original label, while the variant index itself is taken from the
/// original instance.
pub proof fn lemma_variant_keyed_by_related_label(b: Button, sys: System)
    ensures
        spec_resolved(b, sys) == spec_apply_variant(spec_stage_related(b, sys), b.variant, sys),
{
}

/// Law: the variant table matters only at the post-related label. Two systems
/// with the same related table whose variant tables agree at the label of the
/// stage-one result resolve every button alike, whatever either table holds
/// for the button's original label.
pub proof fn lemma_variant_table_consulted_at_related_label_only(b: Button, s1: System, s2: System)
    requires
        s1.related@ == s2.related@,
        table_lookup(s1.variants@, spec_stage_related(b, s1).label@) == table_lookup(
            s2.variants@,
            spec_stage_related(b, s2).label@,
        ),
    ensures
        spec_resolved(b, s1) == spec_resolved(b, s2),
{
    assert(spec_stage_related(b, s1) == spec_stage_related(b, s2));
}

/// Law: resolution falls back silently. A related index that the table cannot
/// satisfy (no entry list for the label, or an out-of-range index) leaves the
/// button unchanged.
pub proof fn lemma_related_fallback(b: Button, sys: System, i: usize)
    requires
        b.related == Some(i),
        match table_lookup(sys.related@, b.label@) {
            Some(rs) => i >= rs.len(),
            None => true,
        },
    ensures
        spec_stage_related(b, sys) == b,
{
}

/// A selectable board button: a label, an optional pronunciation override,
/// an optional image reference, an optional navigation target (a folder id),
/// and the two instance-local resolution indices. The `related` and `variant`
/// indices select an alternate button from the system's substitution tables;
/// when the table or the index does not match, resolution silently falls back
/// to this button.
#[derive(Clone, Debug, PartialEq)]
pub struct Button {
    pub label: String,
    pub pronunciation: Option<String>,
    pub image: Option<String>,
    pub folder: Option<String>,
    pub related: Option<usize>,
    pub variant: Option<usize>,
}

impl Button {
    /// A fresh template button: no related or variant choice yet.
    pub fn new(label: String, pronunciation: Option<String>, image: Option<String>) -> (r: Self)
        ensures
            r == (Self { label, pronunciation, image, folder: None, related: None, variant: None }),
    {
        let folder = None;
        let related = None;
        let variant = None;
        Self { label, pronunciation, image, folder, related, variant }
    }

    /// An independent copy of this button, field for field.
    pub fn duplicate(&self) -> (r: Self)
        ensures
            r == *self,
    {
        Button {
            label: self.label.clone(),
            pronunciation: crate::text::clone_opt_string(&self.pronunciation),
            image: crate::text::clone_opt_string(&self.image),
            folder: crate::text::clone_opt_string(&self.folder),
            related: self.related,
            variant: self.variant,
        }
    }

    /// The stage-one result of resolution: the related-word substitute when
    /// the related table satisfies this button's related index, else this
    /// button itself.
    fn resolve_related<'a>(&'a self, system: &'a System) -> (r: &'a Button)
        ensures
            *r == spec_stage_related(*self, *system),
    {
        if let Some(related) = self.related {
            if let Some(relateds) = table_get(&system.related, self.label.as_str()) {
                if related < relateds.len() {
                    return &relateds[related];
                }
            }
        }
        self
    }

    /// The effective button of resolution: stage one, then the variant
    /// substitution keyed by the stage-one label.
    fn resolve<'a>(&'a self, system: &'a System) -> (r: &'a Button)
        ensures
            *r == spec_resolved(*self, *system),
    {
        let base = self.resolve_related(system);
        if let Some(variant) = self.variant {
            if let Some(variants) = table_get(&system.variants, base.label.as_str()) {
                if variant < variants.len() {
                    return &variants[variant];
                }
            }
        }
        base
    }

    /// The label after related-word substitution only (variants not applied).
    pub fn get_related_word_label(&self, system: &System) -> (r: String)
        ensures
            r@ == spec_stage_related(*self, *system).label@,
    {
        self.resolve_related(system).label.clone()
    }

    /// The label this instance displays: the label of the fully resolved
    /// button.
    pub fn get_label(&self, system: &System) -> (r: String)
        ensures
            r@ == spec_resolved(*self, *system).label@,
    {
        self.resolve(system).label.clone()
    }

    /// The text this instance speaks as: the resolved button's pronunciation
    /// override when present, else its label.
    pub fn get_pronouncible_text(&self, system: &System) -> (r: String)
        ensures
            r@ == spec_pronounce(spec_resolved(*self, *system)),
    {
        let resolved = self.resolve(system);
        match &resolved.pronunciation {
            Some(pronunciation) => pronunciation.clone(),
            None => resolved.label.clone(),
        }
    }

    /// The variant index, or zero when none was chosen.
    pub fn variant(&self) -> (r: usize)
        ensures
            r == self.variant.unwrap_or(0),
    {
        self.variant.unwrap_or(0)
    }

    /// Chooses variant `variant` for this instance.
    pub fn set_variant(&mut self, variant: usize)
        ensures
            *final(self) == (Self { variant: Some(variant), ..*old(self) }),
    {
        self.variant = Some(variant);
    }

    /// Discards the variant choice of this instance.
    pub fn clear_variant(&mut self)
        ensures
            *final(self) == (Self { variant: None, ..*old(self) }),
    {
        self.variant = None;
    }

    /// The related-word index, or zero when none was chosen.
    pub fn related(&self) -> (r: usize)
        ensures
            r == self.related.unwrap_or(0),
    {
        self.related.unwrap_or(0)
    }

    /// Chooses related word `related` for this instance.
    pub fn set_related(&mut self, related: usize)
        ensures
            *final(self) == (Self { related: Some(related), ..*old(self) }),
    {
        self.related = Some(related);
    }
}

} // verus!
