//! The build-time decisions behind turning a tagged function into a
//! hot-patchable trampoline: parsing the tag's arguments, classifying the
//! function's calling convention, and refusing the shapes the generator
//! cannot support.
//!
//! The decisions work on plain shape descriptors — what kind of pattern each
//! parameter declares, whether its type is a reference to the whole world,
//! what the return type looks like — so the rules themselves can be stated
//! exactly.  Receiver parameters and destructured parameter patterns are
//! build-time errors; tag arguments that fail to parse leave the function
//! untouched rather than half-transformed.

use vstd::prelude::*;

verus! {

/// A key appearing in the tag's `key = value` argument list.  Anything but
/// the two recognized keys is `Unknown`.
#[derive(Clone, Copy, Debug, PartialEq, Eq, Structural)]
pub enum ArgKey {
    RerunOnHotPatch,
    HotPatchSignature,
    Unknown,
}

/// One `key = value` pair of the tag's argument list.
#[derive(Clone, Copy, Debug, PartialEq, Eq, Structural)]
pub struct ArgEntry {
    pub key: ArgKey,
    pub value: bool,
}

/// The configuration flags a tag can carry.  Both default to off.
#[derive(Clone, Copy, Debug, PartialEq, Eq, Structural)]
pub struct HotArgs {
    pub rerun_on_hot_patch: bool,
    pub hot_patch_signature: bool,
}

/// Why the tag's argument list was rejected.
#[derive(Clone, Copy, Debug, PartialEq, Eq, Structural)]
pub enum ArgError {
    UnknownKey,
}

/// Whether some entry uses a key the tag does not recognize.
pub open spec fn has_unknown_key(items: Seq<ArgEntry>) -> bool {
    exists|i: int| 0 <= i < items.len() && (#[trigger] items[i]).key is Unknown
}

/// The value the last assignment to a key leaves behind; `false` when the key
/// was never assigned.
pub open spec fn last_value(items: Seq<ArgEntry>, key: ArgKey) -> bool
    decreases items.len(),
{
    if items.len() == 0 {
        false
    } else if items.last().key == key {
        items.last().value
    } else {
        last_value(items.drop_last(), key)
    }
}

/// The flags a well-formed argument list configures.
pub open spec fn parse_model(items: Seq<ArgEntry>) -> HotArgs {
    HotArgs {
        rerun_on_hot_patch: last_value(items, ArgKey::RerunOnHotPatch),
        hot_patch_signature: last_value(items, ArgKey::HotPatchSignature),
    }
}

/// Parse the tag's arguments: the recognized keys set their flag, a repeated
/// key keeps its last value, and any unrecognized key rejects the whole list.
pub fn parse_hot_args(items: &Vec<ArgEntry>) -> (r: Result<HotArgs, ArgError>)
    ensures
        r is Err <==> has_unknown_key(items@),
        r matches Ok(args) ==> args == parse_model(items@),
{
    let mut rerun_on_hot_patch = false;
    let mut hot_patch_signature = false;
    let mut i: usize = 0;
    while i < items.len()
        invariant
            0 <= i <= items@.len(),
            forall|j: int| 0 <= j < i ==> !((#[trigger] items@[j]).key is Unknown),
            rerun_on_hot_patch == last_value(items@.take(i as int), ArgKey::RerunOnHotPatch),
            hot_patch_signature == last_value(items@.take(i as int), ArgKey::HotPatchSignature),
        decreases items@.len() - i,
    {
        proof {
            assert(items@.take(i + 1).drop_last() =~= items@.take(i as int));
            assert(items@.take(i + 1).last() == items@[i as int]);
        }
        let item = items[i];
        match item.key {
            ArgKey::RerunOnHotPatch => {
                rerun_on_hot_patch = item.value;
            },
            ArgKey::HotPatchSignature => {
                hot_patch_signature = item.value;
            },
            ArgKey::Unknown => {
                assert(items@[i as int].key is Unknown);
                return Err(ArgError::UnknownKey);
            },
        }
        i = i + 1;
    }
    assert(items@.take(i as int) =~= items@);
    Ok(HotArgs { rerun_on_hot_patch, hot_patch_signature })
}

/// The pattern a parameter declares: a plain identifier (possibly mutable) or
/// anything more elaborate, which the generator refuses.
#[derive(Clone, Copy, Debug, PartialEq, Eq, Structural)]
pub enum PatternShape {
    Ident { mutable: bool },
    Destructured,
}

/// The type a parameter declares, as far as the generator looks at it:
/// a reference to the whole world, or anything else.
#[derive(Clone, Copy, Debug, PartialEq, Eq, Structural)]
pub enum TypeShape {
    WorldRef { mutable: bool },
    Other,
}

/// One declared parameter: a receiver (`self`, refused) or a typed pattern.
#[derive(Clone, Copy, Debug, PartialEq, Eq, Structural)]
pub enum ParamShape {
    Receiver,
    Typed { pattern: PatternShape, ty: TypeShape },
}

/// The return type, as far as the generator's early-return choice looks at
/// it: nothing, a unit-`Ok` result, a result with some other success type, or
/// anything else.
#[derive(Clone, Copy, Debug, PartialEq, Eq, Structural)]
pub enum RetShape {
    Unit,
    ResultUnit,
    ResultNonUnit,
    Other,
}

/// The shape of a tagged function's signature.
pub struct FnSigShape {
    pub inputs: Vec<ParamShape>,
    pub output: RetShape,
}

/// The mathematical value of a signature shape.
pub struct FnSigModel {
    pub inputs: Seq<ParamShape>,
    pub output: RetShape,
}

impl View for FnSigShape {
    type V = FnSigModel;

    open spec fn view(&self) -> FnSigModel {
        FnSigModel { inputs: self.inputs@, output: self.output }
    }
}

/// Which calling convention the function uses: a single whole-world reference
/// parameter (shared or mutable), or an ordinary declared parameter list.
#[derive(Clone, Copy, Debug, PartialEq, Eq, Structural)]
pub enum WorldParam {
    Ref,
    Mut,
    NotWorld,
}

/// The calling convention a parameter list selects: whole-world mode needs
/// exactly one parameter whose type is a world reference.
pub open spec fn world_param_model(inputs: Seq<ParamShape>) -> WorldParam {
    if inputs.len() != 1 {
        WorldParam::NotWorld
    } else {
        match inputs[0] {
            ParamShape::Typed { ty: TypeShape::WorldRef { mutable }, .. } => if mutable {
                WorldParam::Mut
            } else {
                WorldParam::Ref
            },
            _ => WorldParam::NotWorld,
        }
    }
}

/// Classify the calling convention of a signature.
pub fn has_single_world_param(sig: &FnSigShape) -> (r: WorldParam)
    ensures
        r == world_param_model(sig@.inputs),
{
    if sig.inputs.len() != 1 {
        return WorldParam::NotWorld;
    }
    match sig.inputs[0] {
        ParamShape::Typed { ty: TypeShape::WorldRef { mutable }, .. } => {
            if mutable {
                WorldParam::Mut
            } else {
                WorldParam::Ref
            }
        },
        _ => WorldParam::NotWorld,
    }
}

/// Whether a return shape is a result whose success value is unit — the case
/// in which the generated early return hands back an empty success.
pub open spec fn result_unit_model(output: RetShape) -> bool {
    output is ResultUnit
}

/// Whether the function returns a unit-`Ok` result.
pub fn is_result_unit(output: RetShape) -> (r: bool)
    ensures
        r == result_unit_model(output),
{
    match output {
        RetShape::ResultUnit => true,
        _ => false,
    }
}

/// The unsupported shapes the generator must refuse at build time.
#[derive(Clone, Copy, Debug, PartialEq, Eq, Structural)]
pub enum ShapeError {
    /// The tagged function is a method taking `self`.
    ReceiverParam,
    /// A parameter uses a pattern other than a plain identifier.
    NonIdentifierPattern,
}

/// The first unsupported parameter shape, scanning left to right.
pub open spec fn first_shape_error(inputs: Seq<ParamShape>) -> Option<ShapeError>
    decreases inputs.len(),
{
    if inputs.len() == 0 {
        None
    } else {
        match inputs[0] {
            ParamShape::Receiver => Some(ShapeError::ReceiverParam),
            ParamShape::Typed { pattern: PatternShape::Destructured, .. } => Some(
                ShapeError::NonIdentifierPattern,
            ),
            _ => first_shape_error(inputs.skip(1)),
        }
    }
}

/// What the generator emits for a tagged function.
#[derive(Clone, Copy, Debug, PartialEq, Eq, Structural)]
pub enum HotPlan {
    /// The tag's arguments did not parse: the function is left exactly as
    /// written, no trampoline is generated.
    Passthrough,
    /// Neither flag is set: the plain trampoline triple — outer function,
    /// swappable inner function, wrapper holding the original body — with the
    /// declared parameters forwarded unchanged.
    Simple { args: HotArgs },
    /// At least one flag is set: the full harness whose outer function takes
    /// the type-erased world, with the chosen calling convention and the
    /// early-return style its result shape demands.
    Harness { args: HotArgs, world_param: WorldParam, returns_result_unit: bool },
}

/// The whole build-time decision for one tagged function.
pub open spec fn plan_model(items: Seq<ArgEntry>, sig: FnSigModel) -> Result<HotPlan, ShapeError> {
    if has_unknown_key(items) {
        Ok(HotPlan::Passthrough)
    } else {
        match first_shape_error(sig.inputs) {
            Some(e) => Err(e),
            None => {
                let args = parse_model(items);
                if !args.rerun_on_hot_patch && !args.hot_patch_signature {
                    Ok(HotPlan::Simple { args })
                } else {
                    Ok(
                        HotPlan::Harness {
                            args,
                            world_param: world_param_model(sig.inputs),
                            returns_result_unit: result_unit_model(sig.output),
                        },
                    )
                }
            },
        }
    }
}

/// Decide what to generate for one tagged function: pass it through untouched
/// when the tag's arguments do not parse, refuse receivers and destructured
/// parameter patterns at build time, and otherwise pick the plain trampoline
/// triple or the full harness according to the flags.
pub fn plan_hot_fn(items: &Vec<ArgEntry>, sig: &FnSigShape) -> (r: Result<HotPlan, ShapeError>)
    ensures
        r == plan_model(items@, sig@),
{
    let args = match parse_hot_args(items) {
        Ok(args) => args,
        Err(_) => {
            return Ok(HotPlan::Passthrough);
        },
    };
    let mut i: usize = 0;
    assert(sig@.inputs.skip(0) =~= sig@.inputs);
    while i < sig.inputs.len()
        invariant
            0 <= i <= sig@.inputs.len(),
            !has_unknown_key(items@),
            args == parse_model(items@),
            first_shape_error(sig@.inputs) == first_shape_error(sig@.inputs.skip(i as int)),
        decreases sig@.inputs.len() - i,
    {
        proof {
            assert(sig@.inputs.skip(i as int)[0] == sig@.inputs[i as int]);
            assert(sig@.inputs.skip(i as int).skip(1) =~= sig@.inputs.skip(i + 1));
        }
        match sig.inputs[i] {
            ParamShape::Receiver => {
                assert(sig@.inputs.skip(i as int)[0] is Receiver);
                assert(first_shape_error(sig@.inputs.skip(i as int)) == Some(
                    ShapeError::ReceiverParam,
                ));
                return Err(ShapeError::ReceiverParam);
            },
            ParamShape::Typed { pattern: PatternShape::Destructured, .. } => {
                assert(first_shape_error(sig@.inputs.skip(i as int)) == Some(
                    ShapeError::NonIdentifierPattern,
                ));
                return Err(ShapeError::NonIdentifierPattern);
            },
            _ => {},
        }
        i = i + 1;
    }
    assert(sig@.inputs.skip(i as int).len() == 0);
    if !args.rerun_on_hot_patch && !args.hot_patch_signature {
        Ok(HotPlan::Simple { args })
    } else {
        Ok(
            HotPlan::Harness {
                args,
                world_param: has_single_world_param(sig),
                returns_result_unit: is_result_unit(sig.output),
            },
        )
    }
}

} // verus!
