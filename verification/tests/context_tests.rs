use zeroclaw::context::{
    finish_dynamic_context_block, format_dynamic_context_block, ContextStep, DynamicContextCache, DynamicContextConfig,
    DYNAMIC_CONTEXT_CACHE_MAX_ENTRIES,
};

fn cfg() -> DynamicContextConfig {
    DynamicContextConfig { enabled: true, include_git: false, max_git_log_lines: 10 }
}

#[test]
fn format_dynamic_context_hits_cache_second_call() {
    let c = cfg();
    let mut cache = DynamicContextCache::new();
    assert!(matches!(format_dynamic_context_block(&c, &cache, None), ContextStep::NeedFingerprint));
    assert!(matches!(format_dynamic_context_block(&c, &cache, Some(("/ws", "fp1"))), ContextStep::Assemble));
    let a = finish_dynamic_context_block(&c, &mut cache, "/ws", "fp1", "# block".to_string());
    let b = match format_dynamic_context_block(&c, &cache, Some(("/ws", "fp1"))) {
        ContextStep::Done(b) => b,
        _ => panic!("expected a cache hit"),
    };
    assert_eq!(a, b);
}

#[test]
fn dynamic_context_disabled_is_empty() {
    let mut c = cfg();
    c.enabled = false;
    let cache = DynamicContextCache::new();
    assert!(matches!(format_dynamic_context_block(&c, &cache, None), ContextStep::Done(b) if b.is_empty()));
}

#[test]
fn dynamic_context_misses_on_changed_inputs() {
    let c = cfg();
    let mut cache = DynamicContextCache::new();
    finish_dynamic_context_block(&c, &mut cache, "/ws", "fp1", "old".to_string());
    assert!(matches!(format_dynamic_context_block(&c, &cache, Some(("/ws", "fp2"))), ContextStep::Assemble));
    let mut git = cfg();
    git.include_git = true;
    assert!(matches!(format_dynamic_context_block(&git, &cache, Some(("/ws", "fp1"))), ContextStep::Assemble));
}

#[test]
fn dynamic_context_cache_is_bounded() {
    let c = cfg();
    let mut cache = DynamicContextCache::new();
    for i in 0..(DYNAMIC_CONTEXT_CACHE_MAX_ENTRIES + 10) {
        finish_dynamic_context_block(&c, &mut cache, &format!("/ws{i}"), "fp", format!("b{i}"));
        assert!(cache.len() <= DYNAMIC_CONTEXT_CACHE_MAX_ENTRIES);
    }
    assert_eq!(cache.len(), DYNAMIC_CONTEXT_CACHE_MAX_ENTRIES);
    let last = DYNAMIC_CONTEXT_CACHE_MAX_ENTRIES + 9;
    assert!(matches!(
        format_dynamic_context_block(&c, &cache, Some((format!("/ws{last}").as_str(), "fp"))),
        ContextStep::Done(b) if b == format!("b{last}")
    ));
    // re-storing a known workspace does not evict
    finish_dynamic_context_block(&c, &mut cache, &format!("/ws{last}"), "fp", "again".to_string());
    assert_eq!(cache.len(), DYNAMIC_CONTEXT_CACHE_MAX_ENTRIES);
}
