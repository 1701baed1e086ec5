use hot_patch_core::macro_shape::{
    has_single_world_param, is_result_unit, parse_hot_args, plan_hot_fn, ArgEntry, ArgKey,
    FnSigShape, HotArgs, HotPlan, ParamShape, PatternShape, RetShape, ShapeError, TypeShape,
    WorldParam,
};

fn entry(key: ArgKey, value: bool) -> ArgEntry {
    ArgEntry { key, value }
}

fn plain_param() -> ParamShape {
    ParamShape::Typed { pattern: PatternShape::Ident { mutable: false }, ty: TypeShape::Other }
}

#[test]
fn args_default_to_off() {
    let parsed = parse_hot_args(&vec![]).expect("empty arguments parse");
    assert_eq!(parsed, HotArgs { rerun_on_hot_patch: false, hot_patch_signature: false });
}

#[test]
fn args_set_their_flags() {
    let parsed = parse_hot_args(&vec![
        entry(ArgKey::RerunOnHotPatch, true),
        entry(ArgKey::HotPatchSignature, true),
    ])
    .expect("recognized keys parse");
    assert_eq!(parsed, HotArgs { rerun_on_hot_patch: true, hot_patch_signature: true });
}

#[test]
fn repeated_key_keeps_its_last_value() {
    let parsed = parse_hot_args(&vec![
        entry(ArgKey::RerunOnHotPatch, true),
        entry(ArgKey::RerunOnHotPatch, false),
    ])
    .expect("recognized keys parse");
    assert!(!parsed.rerun_on_hot_patch);
}

#[test]
fn unknown_key_is_rejected() {
    let parsed = parse_hot_args(&vec![
        entry(ArgKey::RerunOnHotPatch, true),
        entry(ArgKey::Unknown, true),
    ]);
    assert!(parsed.is_err());
}

#[test]
fn unknown_key_passes_the_function_through() {
    let sig = FnSigShape { inputs: vec![plain_param()], output: RetShape::Unit };
    let plan = plan_hot_fn(&vec![entry(ArgKey::Unknown, true)], &sig);
    assert_eq!(plan, Ok(HotPlan::Passthrough));
}

#[test]
fn receiver_parameter_is_a_build_error() {
    let sig = FnSigShape { inputs: vec![ParamShape::Receiver, plain_param()], output: RetShape::Unit };
    assert_eq!(plan_hot_fn(&vec![], &sig), Err(ShapeError::ReceiverParam));
}

#[test]
fn destructured_pattern_is_a_build_error() {
    let sig = FnSigShape {
        inputs: vec![
            plain_param(),
            ParamShape::Typed { pattern: PatternShape::Destructured, ty: TypeShape::Other },
        ],
        output: RetShape::Unit,
    };
    assert_eq!(plan_hot_fn(&vec![], &sig), Err(ShapeError::NonIdentifierPattern));
}

#[test]
fn no_flags_build_the_simple_trampoline() {
    let sig = FnSigShape { inputs: vec![plain_param()], output: RetShape::Unit };
    let plan = plan_hot_fn(&vec![], &sig);
    assert_eq!(
        plan,
        Ok(HotPlan::Simple {
            args: HotArgs { rerun_on_hot_patch: false, hot_patch_signature: false },
        }),
    );
}

#[test]
fn flags_build_the_full_harness() {
    let sig = FnSigShape {
        inputs: vec![ParamShape::Typed {
            pattern: PatternShape::Ident { mutable: false },
            ty: TypeShape::WorldRef { mutable: true },
        }],
        output: RetShape::ResultUnit,
    };
    let plan = plan_hot_fn(&vec![entry(ArgKey::RerunOnHotPatch, true)], &sig);
    assert_eq!(
        plan,
        Ok(HotPlan::Harness {
            args: HotArgs { rerun_on_hot_patch: true, hot_patch_signature: false },
            world_param: WorldParam::Mut,
            returns_result_unit: true,
        }),
    );
}

#[test]
fn world_param_needs_exactly_one_world_reference() {
    let mutable_world = ParamShape::Typed {
        pattern: PatternShape::Ident { mutable: false },
        ty: TypeShape::WorldRef { mutable: true },
    };
    let shared_world = ParamShape::Typed {
        pattern: PatternShape::Ident { mutable: false },
        ty: TypeShape::WorldRef { mutable: false },
    };

    let sig = FnSigShape { inputs: vec![mutable_world], output: RetShape::Unit };
    assert_eq!(has_single_world_param(&sig), WorldParam::Mut);

    let sig = FnSigShape { inputs: vec![shared_world], output: RetShape::Unit };
    assert_eq!(has_single_world_param(&sig), WorldParam::Ref);

    let sig = FnSigShape { inputs: vec![mutable_world, plain_param()], output: RetShape::Unit };
    assert_eq!(has_single_world_param(&sig), WorldParam::NotWorld);

    let sig = FnSigShape { inputs: vec![plain_param()], output: RetShape::Unit };
    assert_eq!(has_single_world_param(&sig), WorldParam::NotWorld);
}

#[test]
fn result_unit_detection() {
    assert!(is_result_unit(RetShape::ResultUnit));
    assert!(!is_result_unit(RetShape::Unit));
    assert!(!is_result_unit(RetShape::ResultNonUnit));
    assert!(!is_result_unit(RetShape::Other));
}
