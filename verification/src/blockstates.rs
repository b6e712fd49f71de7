//! Block-state tables: the records stored under
//! `assets/<namespace>/blockstates/`.
//!
//! A block's table either maps variant names to variants, or lists multipart
//! cases that each apply when their conditions hold. These are passive data
//! containers; the decoding from bytes is a caller's concern.

use std::collections::HashMap;

use vstd::prelude::*;

verus! {

/// Relies on core::slice::from_ref: a slice of length one referencing the
/// given value.
#[verifier::external_body]
fn slice_from_ref<T>(value: &T) -> (r: &[T])
    ensures
        r@ == seq![*value],
{
    core::slice::from_ref(value)
}

/// The states of one block: either a map from variant name to variant, or a
/// list of multipart cases. The two shapes are mutually exclusive.
///
/// A variant name lists the relevant block states separated by commas, for
/// example `"face=wall,facing=east,powered=false"`; a block with just one
/// variant uses `""` as the name.
#[derive(Debug, Clone, PartialEq, Eq)]
pub enum BlockStates {
    /// Holds all the variants of the block by name.
    Variants {
        /// Map from variant name to variant.
        variants: HashMap<String, Variant>,
    },
    /// Holds the cases and the models that apply in each case.
    Multipart {
        /// The multipart cases, in order.
        multipart: Vec<Case>,
    },
}

impl BlockStates {
    /// The mapping from variant name to variant, or `None` when the states
    /// are given as multipart cases.
    pub fn variants(&self) -> (r: Option<&HashMap<String, Variant>>)
        ensures
            match r {
                Some(m) => *self matches BlockStates::Variants { variants } && *m == variants,
                None => *self is Multipart,
            },
    {
        match self {
            BlockStates::Variants { variants } => Some(variants),
            BlockStates::Multipart { .. } => None,
        }
    }

    /// The multipart cases, or `None` when the states are given as variants.
    pub fn cases(&self) -> (r: Option<&[Case]>)
        ensures
            match r {
                Some(cs) => *self matches BlockStates::Multipart { multipart } && cs@
                    == multipart@,
                None => *self is Variants,
            },
    {
        match self {
            BlockStates::Variants { .. } => None,
            BlockStates::Multipart { multipart } => Some(multipart.as_slice()),
        }
    }
}

impl Default for BlockStates {
    /// An empty variant map.
    fn default() -> (r: BlockStates)
        ensures
            r matches BlockStates::Variants { variants } && variants@ == Map::<
                String,
                Variant,
            >::empty(),
    {
        BlockStates::Variants { variants: HashMap::new() }
    }
}

/// A block variant: one model, or several to choose from at random by
/// weight.
#[derive(Debug, Clone, PartialEq, Eq)]
pub enum Variant {
    /// A variant with only a single model to choose from.
    Single(ModelProperties),
    /// A variant with multiple models to choose from.
    Multiple(Vec<ModelProperties>),
}

impl Variant {
    /// All the possible model choices for this variant, as a slice: one
    /// element for a single variant, all of them for a multiple variant.
    pub fn models(&self) -> (r: &[ModelProperties])
        ensures
            match *self {
                Variant::Single(m) => r@ == seq![m],
                Variant::Multiple(ms) => r@ == ms@,
            },
    {
        match self {
            Variant::Single(model) => slice_from_ref(model),
            Variant::Multiple(models) => models.as_slice(),
        }
    }
}

impl Default for Variant {
    /// A single default model.
    fn default() -> (r: Variant)
        ensures
            r matches Variant::Single(m) && m.spec_is_default(),
    {
        Variant::Single(ModelProperties::default())
    }
}

/// The properties of a model used to render all or part of a block in a
/// particular state.
#[derive(Debug, Clone, PartialEq, Eq)]
pub struct ModelProperties {
    /// The path to the model file of the block, as a resource identifier.
    /// Newer asset layouts include a prefix such as `block/` or `item/`;
    /// older ones do not.
    pub model: String,
    /// Rotation of the model on the x-axis, in increments of 90 degrees.
    pub x: i32,
    /// Rotation of the model on the y-axis, in increments of 90 degrees.
    pub y: i32,
    /// Locks the rotation of the texture of a block when `true`, so the
    /// texture does not rotate with the block.
    pub uv_lock: bool,
    /// The probability weight of this model among the variant's choices.
    pub weight: u32,
}

impl ModelProperties {
    /// The default rotation on either axis.
    pub fn default_rotation() -> (r: i32)
        ensures
            r == 0,
    {
        0
    }

    /// Texture rotation is not locked by default.
    pub fn default_uv_lock() -> (r: bool)
        ensures
            !r,
    {
        false
    }

    /// The default probability weight.
    pub fn default_weight() -> (r: u32)
        ensures
            r == 1,
    {
        1
    }

    /// Whether the properties are the documented defaults: an empty model
    /// path, no rotation, no uv lock, weight one.
    pub open spec fn spec_is_default(self) -> bool {
        &&& self.model@ == Seq::<char>::empty()
        &&& self.x == 0
        &&& self.y == 0
        &&& !self.uv_lock
        &&& self.weight == 1
    }
}

impl Default for ModelProperties {
    /// The default properties, with every field at its documented default.
    fn default() -> (r: ModelProperties)
        ensures
            r.spec_is_default(),
    {
        ModelProperties {
            model: String::new(),
            x: ModelProperties::default_rotation(),
            y: ModelProperties::default_rotation(),
            uv_lock: ModelProperties::default_uv_lock(),
            weight: ModelProperties::default_weight(),
        }
    }
}

/// One multipart case: a model choice and the conditions under which it
/// applies.
#[derive(Debug, Clone, PartialEq, Eq)]
pub struct Case {
    /// The conditions that have to be met for the model to be applied; an
    /// absent clause means the model always applies.
    pub when: Option<WhenClause>,
    /// The model or models to apply, with their properties.
    pub apply: Variant,
}

/// The conditions of one multipart case.
#[derive(Debug, Clone, PartialEq, Eq)]
pub enum WhenClause {
    /// True when the one condition is true.
    Single(Condition),
    /// True when any of the conditions is true.
    Or(Vec<Condition>),
}

impl WhenClause {
    /// All the conditions of this clause, as a slice: one element for a
    /// single clause, all of them for an or-clause.
    pub fn conditions(&self) -> (r: &[Condition])
        ensures
            match *self {
                WhenClause::Single(c) => r@ == seq![c],
                WhenClause::Or(cs) => r@ == cs@,
            },
    {
        match self {
            WhenClause::Single(condition) => slice_from_ref(condition),
            WhenClause::Or(or) => or.as_slice(),
        }
    }
}

/// A set of requirements on block states that all have to match, as a map
/// from state name to required value.
#[derive(Debug, Clone, PartialEq, Eq, Default)]
pub struct Condition {
    /// Map from state name to the value the state must have.
    pub and: HashMap<String, StateValue>,
}

/// The required value on the right-hand side of a condition entry.
#[derive(Debug, Clone, PartialEq, Eq)]
pub enum StateValue {
    /// An unquoted boolean value.
    Bool(bool),
    /// A textual value, possibly boolean-like such as `"true"`.
    String(String),
}

} // verus!
