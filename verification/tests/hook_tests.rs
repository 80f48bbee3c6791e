use gglibrary::hook::{
    close_probe, hook_function_from_addr, open_probe, resolve_hook_target, Hook, HookManager,
};
use gglibrary::memory::ModuleBounds;

#[test]
fn hook_starts_disabled() {
    let h = Hook::new(0x1000, 0x2000);
    assert!(!h.is_enabled());
    assert_eq!(h.target, 0x1000);
    assert_eq!(h.original(), 0x2000);
}

#[test]
fn enable_twice_leaves_hook_enabled() {
    let mut h = Hook::new(0x1000, 0x2000);
    h.enable();
    h.enable();
    assert!(h.is_enabled());
    assert_eq!(h.original(), 0x2000);
}

#[test]
fn disable_twice_leaves_hook_disabled() {
    let mut h = Hook::new(0x1000, 0x2000);
    h.disable();
    h.disable();
    assert!(!h.is_enabled());
}

#[test]
fn enable_then_disable_restores_initial_state() {
    let mut h = Hook::new(0x1000, 0x2000);
    let before = h;
    h.enable();
    h.disable();
    assert_eq!(h, before);
}

#[test]
fn one_failed_registration_does_not_abort_the_session() {
    let mut m = HookManager::new();
    assert!(m.register(Some(0x10), Some(0x90)).is_some());
    assert!(m.register(Some(0x20), Some(0xa0)).is_some());
    // One signature fails to resolve.
    assert!(m.register(None, None).is_none());
    assert!(m.register(Some(0x30), Some(0xb0)).is_some());
    assert!(m.register(Some(0x40), Some(0xc0)).is_some());
    assert_eq!(m.len(), 4);
    assert_eq!(m.failures, 1);
    assert_eq!(m.enabled_count(), 0);
    assert!(m.enable_all(true));
    assert_eq!(m.enabled_count(), 4);
    assert_eq!(m.failures, 1);
}

#[test]
fn backend_rejection_counts_as_failure() {
    let mut m = HookManager::new();
    assert!(m.register(Some(0x10), None).is_none());
    assert_eq!(m.len(), 0);
    assert_eq!(m.failures, 1);
}

#[test]
fn failed_bulk_enable_leaves_hooks_inert() {
    let mut m = HookManager::new();
    m.register(Some(0x10), Some(0x90));
    m.register(Some(0x20), Some(0xa0));
    assert!(!m.enable_all(false));
    assert_eq!(m.enabled_count(), 0);
    assert_eq!(m.len(), 2);
}

#[test]
fn probe_bracket_disables_and_restores_an_enabled_hook() {
    let mut h = Hook::new(0x1000, 0x2000);
    h.enable();
    let before = h;
    let session = open_probe(&mut h);
    assert!(!h.is_enabled());
    close_probe(&mut h, session);
    assert_eq!(h, before);
    assert!(h.is_enabled());
}

#[test]
fn probe_bracket_restores_a_disabled_hook() {
    let mut h = Hook::new(0x1000, 0x2000);
    let before = h;
    let session = open_probe(&mut h);
    assert!(!h.is_enabled());
    close_probe(&mut h, session);
    assert_eq!(h, before);
    assert!(!h.is_enabled());
}

#[test]
fn hook_from_addr_pairs_target_and_trampoline() {
    let h = hook_function_from_addr(0x500, Some(0x900)).unwrap();
    assert_eq!(h.target, 0x500);
    assert_eq!(h.orig, 0x900);
    assert!(!h.enabled);
    assert!(hook_function_from_addr(0x500, None).is_none());
}

#[test]
fn resolve_hook_target_offsets_into_the_image() {
    let image = [0u8, 0x40, 0x53, 0x48, 0x83];
    let bounds = ModuleBounds::from_base_and_size(0x7ff6_0000_0000, image.len() as u64).unwrap();
    assert_eq!(
        resolve_hook_target("40 53 48", &image, &bounds),
        Some(0x7ff6_0000_0001)
    );
    assert_eq!(resolve_hook_target("41 53", &image, &bounds), None);
}
