//! Carrying out a plan: the steps it consists of, the order they are taken
//! in, and a session that hands them out one by one and stops at the first
//! failure. The configuration store itself stays outside; it is modelled
//! here as a map from slot to the origin of the record that the slot holds.

use crate::resolver::ThemePlan;
use vstd::prelude::*;

verus! {

/// One of the two appearance modes.
#[derive(Clone, Copy, Debug, PartialEq, Eq, Structural)]
pub enum Variant {
    Dark,
    Light,
}

/// The builder that a record is derived from: the loaded theme, or the
/// built-in default of a variant.
#[derive(Clone, Copy, Debug, PartialEq, Eq, Structural)]
pub enum BuilderSource {
    Payload,
    BuiltIn(Variant),
}

/// One piece of work against the outside world. Each can fail on its own.
#[derive(Clone, Copy, Debug, PartialEq, Eq, Structural)]
pub enum Step {
    /// Open the store that holds the variant's builder record.
    OpenBuilderConfig(Variant),
    /// Open the store that holds the variant's theme record.
    OpenThemeConfig(Variant),
    /// Build the theme from the builder and write it as the variant's theme record.
    WriteTheme(Variant, BuilderSource),
    /// Write the builder itself as the variant's builder record.
    WriteBuilder(Variant, BuilderSource),
    /// Build the theme from the payload and write the secondary stylesheet.
    WriteStylesheet,
}

/// A place that a step writes to.
#[derive(Clone, Copy, Debug, PartialEq, Eq, Structural)]
pub enum Slot {
    Builder(Variant),
    Theme(Variant),
    Stylesheet,
}

/// The stored state: for each slot that was written, what it was derived from.
pub type Store = Map<Slot, BuilderSource>;

impl Variant {
    pub open spec fn of_flag(dark: bool) -> Variant {
        if dark {
            Variant::Dark
        } else {
            Variant::Light
        }
    }

    /// The builder used for this variant: the payload where there is one,
    /// else the variant's own default.
    pub open spec fn source(self, has_payload: bool) -> BuilderSource {
        if has_payload {
            BuilderSource::Payload
        } else {
            BuilderSource::BuiltIn(self)
        }
    }

    /// The steps that set this variant, in the order they are taken: both
    /// stores are opened first, then the derived theme is written, and the
    /// builder last.
    pub open spec fn steps(self, has_payload: bool) -> Seq<Step> {
        seq![
            Step::OpenBuilderConfig(self),
            Step::OpenThemeConfig(self),
            Step::WriteTheme(self, self.source(has_payload)),
            Step::WriteBuilder(self, self.source(has_payload)),
        ]
    }
}

impl Step {
    /// The variant that the step belongs to; the stylesheet belongs to none.
    pub open spec fn variant_of(self) -> Option<Variant> {
        match self {
            Step::OpenBuilderConfig(v) => Some(v),
            Step::OpenThemeConfig(v) => Some(v),
            Step::WriteTheme(v, _) => Some(v),
            Step::WriteBuilder(v, _) => Some(v),
            Step::WriteStylesheet => None,
        }
    }

    /// What the step writes, if it writes: the slot and what goes into it.
    pub open spec fn effect(self) -> Option<(Slot, BuilderSource)> {
        match self {
            Step::OpenBuilderConfig(_) => None,
            Step::OpenThemeConfig(_) => None,
            Step::WriteTheme(v, source) => Some((Slot::Theme(v), source)),
            Step::WriteBuilder(v, source) => Some((Slot::Builder(v), source)),
            Step::WriteStylesheet => Some((Slot::Stylesheet, BuilderSource::Payload)),
        }
    }

    pub fn variant(&self) -> (variant: Option<Variant>)
        ensures
            variant == self.variant_of(),
    {
        match self {
            Step::OpenBuilderConfig(v) => Some(*v),
            Step::OpenThemeConfig(v) => Some(*v),
            Step::WriteTheme(v, _) => Some(*v),
            Step::WriteBuilder(v, _) => Some(*v),
            Step::WriteStylesheet => None,
        }
    }
}

/// The steps of a whole plan: the dark variant, then the light one, then
/// the stylesheet, which is only ever derived from a payload.
pub open spec fn schedule(plan: ThemePlan, has_payload: bool) -> Seq<Step> {
    let dark = if plan.write_dark {
        Variant::Dark.steps(has_payload)
    } else {
        Seq::<Step>::empty()
    };
    let light = if plan.write_light {
        Variant::Light.steps(has_payload)
    } else {
        Seq::<Step>::empty()
    };
    let stylesheet = if plan.write_secondary_stylesheet && has_payload {
        seq![Step::WriteStylesheet]
    } else {
        Seq::<Step>::empty()
    };
    dark + light + stylesheet
}

/// The store after one step that succeeded.
pub open spec fn perform(store: Store, step: Step) -> Store {
    match step.effect() {
        Some((slot, source)) => store.insert(slot, source),
        None => store,
    }
}

/// The store after every one of the steps succeeded, in their order.
pub open spec fn perform_all(store: Store, steps: Seq<Step>) -> Store
    decreases steps.len(),
{
    if steps.len() == 0 {
        store
    } else {
        perform(perform_all(store, steps.drop_last()), steps.last())
    }
}

/// The steps that set one variant's theme.
pub fn set_theme(has_payload: bool, dark: bool) -> (steps: Vec<Step>)
    ensures
        steps@ == Variant::of_flag(dark).steps(has_payload),
{
    let variant = if dark {
        Variant::Dark
    } else {
        Variant::Light
    };
    let source = if has_payload {
        BuilderSource::Payload
    } else {
        BuilderSource::BuiltIn(variant)
    };
    let mut steps: Vec<Step> = Vec::new();
    steps.push(Step::OpenBuilderConfig(variant));
    steps.push(Step::OpenThemeConfig(variant));
    steps.push(Step::WriteTheme(variant, source));
    steps.push(Step::WriteBuilder(variant, source));
    assert(steps@ =~= Variant::of_flag(dark).steps(has_payload));
    steps
}

/// The steps of a plan, in the order they are to be taken.
pub fn plan_steps(plan: &ThemePlan, has_payload: bool) -> (steps: Vec<Step>)
    ensures
        steps@ == schedule(*plan, has_payload),
        steps@.len() == (if plan.write_dark {
            4int
        } else {
            0int
        }) + (if plan.write_light {
            4int
        } else {
            0int
        }) + (if plan.write_secondary_stylesheet && has_payload {
            1int
        } else {
            0int
        }),
{
    let mut steps: Vec<Step> = Vec::new();
    if plan.write_dark {
        let mut dark = set_theme(has_payload, true);
        steps.append(&mut dark);
    }
    if plan.write_light {
        let mut light = set_theme(has_payload, false);
        steps.append(&mut light);
    }
    if plan.write_secondary_stylesheet && has_payload {
        steps.push(Step::WriteStylesheet);
    }
    assert(steps@ =~= schedule(*plan, has_payload));
    steps
}

/// What a plan writes when every step succeeds: the slots it touches, each
/// with the origin of the record that ends up in it.
pub open spec fn plan_writes(plan: ThemePlan, has_payload: bool) -> Store {
    Map::new(
        |slot: Slot|
            match slot {
                Slot::Builder(v) | Slot::Theme(v) => match v {
                    Variant::Dark => plan.write_dark,
                    Variant::Light => plan.write_light,
                },
                Slot::Stylesheet => plan.write_secondary_stylesheet && has_payload,
            },
        |slot: Slot|
            match slot {
                Slot::Builder(v) | Slot::Theme(v) => v.source(has_payload),
                Slot::Stylesheet => BuilderSource::Payload,
            },
    )
}

/// Steps taken one run after another act like one run of all of them.
pub proof fn lemma_perform_all_concat(store: Store, first: Seq<Step>, second: Seq<Step>)
    ensures
        perform_all(store, first + second) == perform_all(perform_all(store, first), second),
    decreases second.len(),
{
    if second.len() == 0 {
        assert(first + second =~= first);
    } else {
        assert((first + second).drop_last() =~= first + second.drop_last());
        assert((first + second).last() == second.last());
        lemma_perform_all_concat(store, first, second.drop_last());
    }
}

/// Steps only lay their writes over what was stored before: the outcome is
/// the earlier store, overlaid with what the same steps write into an empty one.
pub proof fn lemma_perform_all_overlay(store: Store, steps: Seq<Step>)
    ensures
        perform_all(store, steps) == store.union_prefer_right(
            perform_all(Map::empty(), steps),
        ),
    decreases steps.len(),
{
    if steps.len() == 0 {
        assert(store =~= store.union_prefer_right(Map::<Slot, BuilderSource>::empty()));
    } else {
        lemma_perform_all_overlay(store, steps.drop_last());
        let written = perform_all(Map::empty(), steps.drop_last());
        assert(perform(store.union_prefer_right(written), steps.last())
            =~= store.union_prefer_right(perform(written, steps.last())));
    }
}

/// Carrying out the same steps a second time changes nothing: every
/// write lands in the slot it landed in before, with the same content.
pub proof fn lemma_steps_idempotent(store: Store, steps: Seq<Step>)
    ensures
        perform_all(perform_all(store, steps), steps) == perform_all(store, steps),
{
    let once = perform_all(store, steps);
    let written = perform_all(Map::empty(), steps);
    lemma_perform_all_overlay(store, steps);
    lemma_perform_all_overlay(once, steps);
    assert(store.union_prefer_right(written).union_prefer_right(written)
        =~= store.union_prefer_right(written));
}

/// The four steps of a variant leave its theme record and its builder
/// record behind, both from the same builder, and touch nothing else.
pub proof fn lemma_variant_writes(store: Store, variant: Variant, has_payload: bool)
    ensures
        perform_all(store, variant.steps(has_payload)) == store.insert(
            Slot::Theme(variant),
            variant.source(has_payload),
        ).insert(Slot::Builder(variant), variant.source(has_payload)),
{
    let steps = variant.steps(has_payload);
    let three = steps.drop_last();
    let two = three.drop_last();
    let one = two.drop_last();
    assert(one.drop_last().len() == 0);
    assert(perform_all(store, one.drop_last()) == store);
    assert(perform_all(store, one) == store);
    assert(perform_all(store, two) == store);
    assert(perform_all(store, three) == store.insert(
        Slot::Theme(variant),
        variant.source(has_payload),
    ));
}

/// The stored state after a plan was carried out in full: what was there
/// before, overlaid with exactly the records that the plan names.
pub proof fn lemma_plan_outcome(store: Store, plan: ThemePlan, has_payload: bool)
    ensures
        perform_all(store, schedule(plan, has_payload)) == store.union_prefer_right(
            plan_writes(plan, has_payload),
        ),
{
    let dark = if plan.write_dark {
        Variant::Dark.steps(has_payload)
    } else {
        Seq::<Step>::empty()
    };
    let light = if plan.write_light {
        Variant::Light.steps(has_payload)
    } else {
        Seq::<Step>::empty()
    };
    let stylesheet = if plan.write_secondary_stylesheet && has_payload {
        seq![Step::WriteStylesheet]
    } else {
        Seq::<Step>::empty()
    };
    let after_dark = perform_all(store, dark);
    let after_light = perform_all(after_dark, light);
    let after_all = perform_all(after_light, stylesheet);
    lemma_perform_all_concat(store, dark, light);
    lemma_perform_all_concat(store, dark + light, stylesheet);
    if plan.write_dark {
        lemma_variant_writes(store, Variant::Dark, has_payload);
    }
    if plan.write_light {
        lemma_variant_writes(after_dark, Variant::Light, has_payload);
    }
    if plan.write_secondary_stylesheet && has_payload {
        assert(stylesheet.drop_last().len() == 0);
        assert(perform_all(after_light, stylesheet.drop_last()) == after_light);
        assert(after_all == after_light.insert(Slot::Stylesheet, BuilderSource::Payload));
    }
    assert(after_all =~= store.union_prefer_right(plan_writes(plan, has_payload)));
}

/// Carrying out a plan twice leaves the store as carrying it out once does.
pub proof fn lemma_plan_idempotent(store: Store, plan: ThemePlan, has_payload: bool)
    ensures
        perform_all(
            perform_all(store, schedule(plan, has_payload)),
            schedule(plan, has_payload),
        ) == perform_all(store, schedule(plan, has_payload)),
{
    lemma_steps_idempotent(store, schedule(plan, has_payload));
}

} // verus!
