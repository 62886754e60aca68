use rticx_riscv::features::{
    feature_errors, pre_core_passes, select_target, Chip, FeatureError, FeatureSet, Pass,
    SlicBackend, Target,
};

fn none() -> FeatureSet {
    FeatureSet {
        swtasks: false,
        async_tasks: false,
        slic: false,
        esp32c3: false,
        esp32c6: false,
        mecall_backend: false,
        clint_backend: false,
    }
}

#[test]
fn esp32c3_alone_is_accepted() {
    let f = FeatureSet { esp32c3: true, swtasks: true, ..none() };
    assert_eq!(select_target(f), Ok(Target::Esp32(Chip::Esp32c3)));
}

#[test]
fn esp32c6_alone_is_accepted() {
    let f = FeatureSet { esp32c6: true, async_tasks: true, ..none() };
    assert_eq!(select_target(f), Ok(Target::Esp32(Chip::Esp32c6)));
}

#[test]
fn slic_with_each_backend_is_accepted() {
    let clint = FeatureSet { slic: true, clint_backend: true, ..none() };
    assert_eq!(select_target(clint), Ok(Target::Slic(SlicBackend::Clint)));
    let mecall = FeatureSet { slic: true, mecall_backend: true, ..none() };
    assert_eq!(select_target(mecall), Ok(Target::Slic(SlicBackend::Mecall)));
}

#[test]
fn no_target_is_refused() {
    assert_eq!(select_target(none()), Err(vec![FeatureError::NoTarget]));
}

#[test]
fn slic_without_backend_is_refused() {
    let f = FeatureSet { slic: true, ..none() };
    assert_eq!(feature_errors(f), vec![FeatureError::SlicWithoutBackend]);
}

#[test]
fn every_broken_rule_is_reported_in_order() {
    let all = FeatureSet {
        swtasks: true,
        async_tasks: true,
        slic: true,
        esp32c3: true,
        esp32c6: true,
        mecall_backend: true,
        clint_backend: true,
    };
    assert_eq!(
        feature_errors(all),
        vec![
            FeatureError::SwTasksAndAsync,
            FeatureError::SlicAndEsp32c3,
            FeatureError::SlicAndEsp32c6,
            FeatureError::Esp32c3AndEsp32c6,
            FeatureError::BothSlicBackends,
        ]
    );
}

#[test]
fn two_chips_are_refused() {
    let f = FeatureSet { esp32c3: true, esp32c6: true, ..none() };
    assert_eq!(select_target(f), Err(vec![FeatureError::Esp32c3AndEsp32c6]));
}

#[test]
fn passes_follow_the_task_features() {
    assert_eq!(pre_core_passes(none()), vec![]);
    assert_eq!(pre_core_passes(FeatureSet { swtasks: true, ..none() }), vec![Pass::SoftwareTasks]);
    assert_eq!(pre_core_passes(FeatureSet { async_tasks: true, ..none() }), vec![Pass::AsyncTasks]);
    assert_eq!(
        pre_core_passes(FeatureSet { swtasks: true, async_tasks: true, ..none() }),
        vec![Pass::SoftwareTasks, Pass::AsyncTasks]
    );
}
