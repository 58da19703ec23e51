use std::collections::VecDeque;

use pesti::model_manager::{
    enqueue_preloads, next_preload, LoadedModels, ModelSpec, PreloadStats, STALE_AFTER_NANOS,
};

fn make_spec(name: &str, base: &str) -> ModelSpec {
    ModelSpec {
        name: name.to_string(),
        base_path: base.to_string(),
        lora_path: None,
        template: None,
        ctx_len: 2048,
        n_threads: None,
    }
}

const HOUR: u128 = STALE_AFTER_NANOS;

#[test]
fn model_spec_clone_works() {
    let spec = make_spec("clone-test", "/models/clone.gguf");
    let cloned = spec.clone();
    assert_eq!(spec, cloned);
}

#[test]
fn preload_stats_compare_by_fields() {
    let a = PreloadStats {
        loaded_models: 1,
        max_models: 3,
        queue_length: 0,
        total_tracked_models: 2,
        memory_limit_mb: 8192,
        preloading_enabled: true,
    };
    let b = a;
    assert_eq!(a, b);
}

#[test]
fn model_manager_creation() {
    let models = LoadedModels::new();
    assert_eq!(models.model_count(), 0);
}

#[test]
fn load_model_sets_count() {
    let mut models = LoadedModels::new();
    models.load_model("test".into(), make_spec("test", "/models/test.gguf"), 10);
    assert_eq!(models.model_count(), 1);
    assert!(models.is_loaded("test"));
}

#[test]
fn load_model_with_lora() {
    let mut models = LoadedModels::new();
    let spec = ModelSpec {
        name: "lora-model".into(),
        base_path: "/models/base.gguf".into(),
        lora_path: Some("/models/lora.safetensors".into()),
        template: Some("chatml".into()),
        ctx_len: 4096,
        n_threads: Some(8),
    };
    models.load_model("lora-model".into(), spec, 10);
    assert_eq!(models.model_count(), 1);

    let info = models.model_info("lora-model").unwrap();
    assert!(info.spec.lora_path.is_some());
    assert_eq!(info.spec.ctx_len, 4096);
    assert_eq!(info.spec.n_threads, Some(8));
}

#[test]
fn load_overwrites_existing_model() {
    let mut models = LoadedModels::new();
    models.load_model("dup".into(), make_spec("dup", "/models/a.gguf"), 10);
    models.load_model("dup".into(), make_spec("dup", "/models/b.gguf"), 20);
    assert_eq!(models.model_count(), 1);

    let info = models.model_info("dup").unwrap();
    assert_eq!(info.spec.base_path, "/models/b.gguf");
    assert_eq!(info.loaded_at, 20);
    assert_eq!(info.access_count, 1);
}

#[test]
fn load_multiple_models() {
    let mut models = LoadedModels::new();
    for i in 0..5 {
        models.load_model(
            format!("model-{}", i),
            make_spec(&format!("model-{}", i), &format!("/models/{}.gguf", i)),
            i as u128,
        );
    }
    assert_eq!(models.model_count(), 5);
}

#[test]
fn unload_existing_model() {
    let mut models = LoadedModels::new();
    models.load_model("to-unload".into(), make_spec("to-unload", "/models/unload.gguf"), 1);
    assert!(models.unload_model("to-unload"));
    assert!(!models.is_loaded("to-unload"));
    assert_eq!(models.model_count(), 0);
}

#[test]
fn unload_nonexistent_model_returns_false() {
    let mut models = LoadedModels::new();
    assert!(!models.unload_model("ghost"));
}

#[test]
fn record_access_updates_info() {
    let mut models = LoadedModels::new();
    models.load_model("track".into(), make_spec("track", "/models/track.gguf"), 1);

    models.record_access("track", 2);
    models.record_access("track", 3);

    let info = models.model_info("track").unwrap();
    assert_eq!(info.access_count, 3); // 1 from load + 2 from record_access
}

#[test]
fn record_access_updates_last_accessed() {
    let mut models = LoadedModels::new();
    models.load_model("time-track".into(), make_spec("time-track", "/models/t.gguf"), 100);
    models.record_access("time-track", 150);

    let info = models.model_info("time-track").unwrap();
    assert_eq!(info.loaded_at, 100);
    assert_eq!(info.last_accessed, 150);
}

#[test]
fn record_access_of_unknown_model_changes_nothing() {
    let mut models = LoadedModels::new();
    models.load_model("a".into(), make_spec("a", "/a"), 1);
    models.record_access("b", 5);
    let info = models.model_info("a").unwrap();
    assert_eq!(info.access_count, 1);
    assert_eq!(info.last_accessed, 1);
    assert!(!models.is_loaded("b"));
}

#[test]
fn list_loaded_models_empty() {
    let models = LoadedModels::new();
    assert!(models.list_loaded_models().is_empty());
}

#[test]
fn list_loaded_models_populated() {
    let mut models = LoadedModels::new();
    models.load_model("alpha".into(), make_spec("alpha", "/models/a.gguf"), 1);
    models.load_model("beta".into(), make_spec("beta", "/models/b.gguf"), 2);

    let names = models.list_loaded_models();
    assert_eq!(names, vec!["alpha".to_string(), "beta".to_string()]);
}

#[test]
fn reloading_moves_a_model_last() {
    let mut models = LoadedModels::new();
    models.load_model("alpha".into(), make_spec("alpha", "/a"), 1);
    models.load_model("beta".into(), make_spec("beta", "/b"), 2);
    models.load_model("alpha".into(), make_spec("alpha", "/a2"), 3);
    assert_eq!(models.list_loaded_models(), vec!["beta".to_string(), "alpha".to_string()]);
}

#[test]
fn model_info_existing() {
    let mut models = LoadedModels::new();
    models.load_model("info-test".into(), make_spec("info-test", "/models/info.gguf"), 1);

    let info = models.model_info("info-test").unwrap();
    assert_eq!(info.name, "info-test");
    assert_eq!(info.spec.base_path, "/models/info.gguf");
}

#[test]
fn model_info_nonexistent_returns_none() {
    let models = LoadedModels::new();
    assert!(models.model_info("ghost").is_none());
}

#[test]
fn unload_model_clears_loaded_status() {
    let mut models = LoadedModels::new();
    models.load_model("clear".into(), make_spec("clear", "/models/clear.gguf"), 1);
    assert!(models.is_loaded("clear"));
    models.unload_model("clear");
    assert!(!models.is_loaded("clear"));
}

#[test]
fn model_info_edge_empty_name() {
    let models = LoadedModels::new();
    assert!(models.model_info("").is_none());
}

#[test]
fn model_info_edge_long_name() {
    let models = LoadedModels::new();
    let long = "a".repeat(1000);
    assert!(models.model_info(&long).is_none());
}

#[test]
fn cleanup_keeps_models_within_the_limit() {
    let mut models = LoadedModels::new();
    models.load_model("a".into(), make_spec("a", "/a"), 0);
    models.load_model("b".into(), make_spec("b", "/b"), 0);
    models.cleanup_old_models(2, 10 * HOUR);
    assert_eq!(models.model_count(), 2);
}

#[test]
fn cleanup_removes_the_longest_unused_first() {
    let mut models = LoadedModels::new();
    for (i, name) in ["a", "b", "c", "d", "e"].iter().enumerate() {
        models.load_model(name.to_string(), make_spec(name, "/m"), (i as u128 + 1) * 10);
    }
    // "c" was used recently; "b" was used often.
    models.record_access("c", 9 * HOUR);
    for _ in 0..5 {
        models.record_access("b", 20);
    }
    models.cleanup_old_models(3, 5 * HOUR);
    // Two over the limit: the stale ones are a (10), d (40), e (50); a and d go.
    assert_eq!(
        models.list_loaded_models(),
        vec!["b".to_string(), "c".to_string(), "e".to_string()]
    );
}

#[test]
fn cleanup_removes_only_stale_models() {
    let mut models = LoadedModels::new();
    models.load_model("old".into(), make_spec("old", "/o"), 0);
    models.load_model("new1".into(), make_spec("new1", "/n1"), 2 * HOUR);
    models.load_model("new2".into(), make_spec("new2", "/n2"), 2 * HOUR);
    models.cleanup_old_models(1, 2 * HOUR + 1);
    // Only one model is stale, so the count stays above the limit.
    assert_eq!(models.list_loaded_models(), vec!["new1".to_string(), "new2".to_string()]);
}

#[test]
fn cleanup_breaks_ties_by_access_count_then_order() {
    let mut models = LoadedModels::new();
    models.load_model("x".into(), make_spec("x", "/x"), 5);
    models.load_model("y".into(), make_spec("y", "/y"), 5);
    models.load_model("z".into(), make_spec("z", "/z"), 5);
    models.record_access("x", 5);
    models.cleanup_old_models(1, 3 * HOUR);
    // y and z have one access each, x has two: y and z go.
    assert_eq!(models.list_loaded_models(), vec!["x".to_string()]);
}

#[test]
fn enqueue_preloads_fills_free_slots_once() {
    let mut queue: VecDeque<String> = VecDeque::new();
    queue.push_back("b".to_string());
    let ranked = vec!["a".to_string(), "b".to_string(), "c".to_string(), "d".to_string()];
    enqueue_preloads(&mut queue, &ranked, 3, 0);
    assert_eq!(queue, VecDeque::from(vec!["b".to_string(), "a".to_string(), "c".to_string()]));
    enqueue_preloads(&mut queue, &ranked, 3, 3);
    assert_eq!(queue.len(), 3);
    enqueue_preloads(&mut queue, &ranked, 3, 5);
    assert_eq!(queue.len(), 3);
}

#[test]
fn next_preload_takes_the_front_below_the_limit() {
    let mut queue: VecDeque<String> = VecDeque::from(vec!["a".to_string(), "b".to_string()]);
    assert_eq!(next_preload(&mut queue, 3, 3), None);
    assert_eq!(queue.len(), 2);
    assert_eq!(next_preload(&mut queue, 2, 3), Some("a".to_string()));
    assert_eq!(queue, VecDeque::from(vec!["b".to_string()]));
    let mut empty: VecDeque<String> = VecDeque::new();
    assert_eq!(next_preload(&mut empty, 0, 3), None);
}
