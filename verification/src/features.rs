//! Feature selection: which target, interrupt-controller backend and task passes a
//! build enables, and the combinations that are refused.
use vstd::prelude::*;

verus! {

/// The Cargo features a build of the distribution enables.
#[derive(Clone, Copy, Debug, PartialEq, Eq, Structural)]
pub struct FeatureSet {
    pub swtasks: bool,
    pub async_tasks: bool,
    pub slic: bool,
    pub esp32c3: bool,
    pub esp32c6: bool,
    pub mecall_backend: bool,
    pub clint_backend: bool,
}

/// A refused combination of features.
#[derive(Clone, Copy, Debug, PartialEq, Eq, Structural)]
pub enum FeatureError {
    /// `swtasks` and `async` both enabled.
    SwTasksAndAsync,
    /// None of `slic`, `esp32c3`, `esp32c6` enabled.
    NoTarget,
    /// `slic` and `esp32c3` both enabled.
    SlicAndEsp32c3,
    /// `slic` and `esp32c6` both enabled.
    SlicAndEsp32c6,
    /// `esp32c3` and `esp32c6` both enabled.
    Esp32c3AndEsp32c6,
    /// `slic` enabled without `mecall-backend` or `clint-backend`.
    SlicWithoutBackend,
    /// `mecall-backend` and `clint-backend` both enabled.
    BothSlicBackends,
}

/// How the SLIC controller signals software interrupts.
#[derive(Clone, Copy, Debug, PartialEq, Eq, Structural)]
pub enum SlicBackend {
    Mecall,
    Clint,
}

/// An Espressif RISC-V chip.
#[derive(Clone, Copy, Debug, PartialEq, Eq, Structural)]
pub enum Chip {
    Esp32c3,
    Esp32c6,
}

/// The target a build is for.
#[derive(Clone, Copy, Debug, PartialEq, Eq, Structural)]
pub enum Target {
    Slic(SlicBackend),
    Esp32(Chip),
}

/// A compilation pass that runs before the core pass.
#[derive(Clone, Copy, Debug, PartialEq, Eq, Structural)]
pub enum Pass {
    SoftwareTasks,
    AsyncTasks,
}

/// `[e]` when `cond` holds, else the empty sequence.
pub open spec fn error_if(cond: bool, e: FeatureError) -> Seq<FeatureError> {
    if cond {
        seq![e]
    } else {
        Seq::empty()
    }
}

/// Every rule that `f` breaks, in the order in which the rules are declared.
pub open spec fn spec_feature_errors(f: FeatureSet) -> Seq<FeatureError> {
    error_if(f.swtasks && f.async_tasks, FeatureError::SwTasksAndAsync)
        + error_if(!(f.slic || f.esp32c3 || f.esp32c6), FeatureError::NoTarget)
        + error_if(f.slic && f.esp32c3, FeatureError::SlicAndEsp32c3)
        + error_if(f.slic && f.esp32c6, FeatureError::SlicAndEsp32c6)
        + error_if(f.esp32c3 && f.esp32c6, FeatureError::Esp32c3AndEsp32c6)
        + error_if(f.slic && !(f.mecall_backend || f.clint_backend), FeatureError::SlicWithoutBackend)
        + error_if(f.mecall_backend && f.clint_backend, FeatureError::BothSlicBackends)
}

/// The target that an accepted feature set selects.
pub open spec fn spec_target(f: FeatureSet) -> Target {
    if f.slic {
        if f.clint_backend {
            Target::Slic(SlicBackend::Clint)
        } else {
            Target::Slic(SlicBackend::Mecall)
        }
    } else if f.esp32c6 {
        Target::Esp32(Chip::Esp32c6)
    } else {
        Target::Esp32(Chip::Esp32c3)
    }
}

/// The passes bound before the core pass, in binding order.
pub open spec fn spec_pre_core_passes(f: FeatureSet) -> Seq<Pass> {
    (if f.swtasks { seq![Pass::SoftwareTasks] } else { Seq::empty() })
        + (if f.async_tasks { seq![Pass::AsyncTasks] } else { Seq::empty() })
}

fn push_if(errors: &mut Vec<FeatureError>, cond: bool, e: FeatureError)
    ensures
        final(errors)@ == old(errors)@ + error_if(cond, e),
{
    if cond {
        errors.push(e);
    }
    proof {
        if !cond {
            assert(final(errors)@ =~= old(errors)@ + error_if(cond, e));
        }
    }
}

/// Every rule that `f` breaks, in declaration order; empty exactly when the
/// build is accepted.
pub fn feature_errors(f: FeatureSet) -> (errors: Vec<FeatureError>)
    ensures
        errors@ == spec_feature_errors(f),
        errors@.contains(FeatureError::SwTasksAndAsync) <==> f.swtasks && f.async_tasks,
        errors@.contains(FeatureError::NoTarget) <==> !f.slic && !f.esp32c3 && !f.esp32c6,
        errors@.contains(FeatureError::SlicAndEsp32c3) <==> f.slic && f.esp32c3,
        errors@.contains(FeatureError::SlicAndEsp32c6) <==> f.slic && f.esp32c6,
        errors@.contains(FeatureError::Esp32c3AndEsp32c6) <==> f.esp32c3 && f.esp32c6,
        errors@.contains(FeatureError::SlicWithoutBackend) <==> f.slic && !f.mecall_backend
            && !f.clint_backend,
        errors@.contains(FeatureError::BothSlicBackends) <==> f.mecall_backend && f.clint_backend,
{
    proof {
        law_feature_errors(f);
    }
    let mut errors: Vec<FeatureError> = Vec::new();
    push_if(&mut errors, f.swtasks && f.async_tasks, FeatureError::SwTasksAndAsync);
    push_if(&mut errors, !(f.slic || f.esp32c3 || f.esp32c6), FeatureError::NoTarget);
    push_if(&mut errors, f.slic && f.esp32c3, FeatureError::SlicAndEsp32c3);
    push_if(&mut errors, f.slic && f.esp32c6, FeatureError::SlicAndEsp32c6);
    push_if(&mut errors, f.esp32c3 && f.esp32c6, FeatureError::Esp32c3AndEsp32c6);
    push_if(
        &mut errors,
        f.slic && !(f.mecall_backend || f.clint_backend),
        FeatureError::SlicWithoutBackend,
    );
    push_if(&mut errors, f.mecall_backend && f.clint_backend, FeatureError::BothSlicBackends);
    assert(errors@ =~= spec_feature_errors(f));
    errors
}

/// The target of an accepted build, or every rule that the build breaks.
pub fn select_target(f: FeatureSet) -> (r: Result<Target, Vec<FeatureError>>)
    ensures
        spec_feature_errors(f).len() == 0 ==> r == Ok::<Target, Vec<FeatureError>>(spec_target(f)),
        spec_feature_errors(f).len() > 0 ==> (r matches Err(errors) && errors@ == spec_feature_errors(f)),
{
    let errors = feature_errors(f);
    if errors.len() == 0 {
        if f.slic {
            if f.clint_backend {
                Ok(Target::Slic(SlicBackend::Clint))
            } else {
                Ok(Target::Slic(SlicBackend::Mecall))
            }
        } else if f.esp32c6 {
            Ok(Target::Esp32(Chip::Esp32c6))
        } else {
            Ok(Target::Esp32(Chip::Esp32c3))
        }
    } else {
        Err(errors)
    }
}

/// The passes that the `app` macro binds before the core pass: the software-task
/// pass when `swtasks` is on, then the async pass when `async` is on.
pub fn pre_core_passes(f: FeatureSet) -> (passes: Vec<Pass>)
    ensures
        passes@ == spec_pre_core_passes(f),
        passes@.contains(Pass::SoftwareTasks) <==> f.swtasks,
        passes@.contains(Pass::AsyncTasks) <==> f.async_tasks,
        passes@.len() == f.swtasks as int + f.async_tasks as int,
        f.swtasks ==> passes@[0] == Pass::SoftwareTasks,
{
    proof {
        law_pre_core_passes(f);
    }
    let mut passes: Vec<Pass> = Vec::new();
    if f.swtasks {
        passes.push(Pass::SoftwareTasks);
    }
    if f.async_tasks {
        passes.push(Pass::AsyncTasks);
    }
    assert(passes@ =~= spec_pre_core_passes(f));
    passes
}

/// `error_if(cond, e)` holds `x` exactly when `cond` holds and `x` is `e`.
broadcast proof fn lemma_error_if_contains(cond: bool, e: FeatureError, x: FeatureError)
    ensures
        #[trigger] error_if(cond, e).contains(x) <==> cond && x == e,
{
    if cond {
        assert(error_if(cond, e)[0] == e);
    }
}

/// Each refusal is reported exactly when its rule is broken.
pub proof fn law_feature_errors(f: FeatureSet)
    ensures
        spec_feature_errors(f).contains(FeatureError::SwTasksAndAsync) <==> f.swtasks && f.async_tasks,
        spec_feature_errors(f).contains(FeatureError::NoTarget) <==> !f.slic && !f.esp32c3
            && !f.esp32c6,
        spec_feature_errors(f).contains(FeatureError::SlicAndEsp32c3) <==> f.slic && f.esp32c3,
        spec_feature_errors(f).contains(FeatureError::SlicAndEsp32c6) <==> f.slic && f.esp32c6,
        spec_feature_errors(f).contains(FeatureError::Esp32c3AndEsp32c6) <==> f.esp32c3 && f.esp32c6,
        spec_feature_errors(f).contains(FeatureError::SlicWithoutBackend) <==> f.slic
            && !f.mecall_backend && !f.clint_backend,
        spec_feature_errors(f).contains(FeatureError::BothSlicBackends) <==> f.mecall_backend
            && f.clint_backend,
{
    broadcast use vstd::seq_lib::lemma_seq_concat_contains_all_elements, lemma_error_if_contains;

}

/// The software-task pass is bound exactly when `swtasks` is on and the async
/// pass exactly when `async` is on, whatever the target and backend; each at most
/// once, the software-task pass first.
pub proof fn law_pre_core_passes(f: FeatureSet)
    ensures
        spec_pre_core_passes(f).contains(Pass::SoftwareTasks) <==> f.swtasks,
        spec_pre_core_passes(f).contains(Pass::AsyncTasks) <==> f.async_tasks,
        spec_pre_core_passes(f).len() == f.swtasks as int + f.async_tasks as int,
        f.swtasks ==> spec_pre_core_passes(f)[0] == Pass::SoftwareTasks,
{
    let p = spec_pre_core_passes(f);
    if f.swtasks {
        assert(p[0] == Pass::SoftwareTasks);
    }
    if f.async_tasks {
        assert(p[p.len() - 1] == Pass::AsyncTasks);
    }
    if p.contains(Pass::SoftwareTasks) {
        let i = choose|i: int| 0 <= i < p.len() && p[i] == Pass::SoftwareTasks;
    }
    if p.contains(Pass::AsyncTasks) {
        let i = choose|i: int| 0 <= i < p.len() && p[i] == Pass::AsyncTasks;
    }
}

/// A build is accepted exactly when it enables one target feature, at most one of
/// the task passes, and, for the SLIC target, exactly one interrupt backend; the
/// target it selects is the one that is enabled.
pub proof fn law_accepted_features(f: FeatureSet)
    ensures
        spec_feature_errors(f).len() == 0 <==> {
            &&& !(f.swtasks && f.async_tasks)
            &&& (f.slic as int + f.esp32c3 as int + f.esp32c6 as int) == 1
            &&& (f.slic ==> (f.mecall_backend as int + f.clint_backend as int) == 1)
            &&& !(f.mecall_backend && f.clint_backend)
        },
        spec_feature_errors(f).len() == 0 ==> match spec_target(f) {
            Target::Slic(SlicBackend::Clint) => f.slic && f.clint_backend,
            Target::Slic(SlicBackend::Mecall) => f.slic && f.mecall_backend,
            Target::Esp32(Chip::Esp32c3) => f.esp32c3,
            Target::Esp32(Chip::Esp32c6) => f.esp32c6,
        },
        spec_feature_errors(f).len() == 0 ==> spec_pre_core_passes(f).len() <= 1,
{
}

} // verus!
