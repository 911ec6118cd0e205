use voice2text::platform::{
    detect, is_apple_silicon, mps_reported, recommended_model, resolve_python_candidates,
    AccelerationBackend,
};

#[test]
fn apple_silicon_with_sixteen_gib() {
    let p = detect("Apple M1 Pro\n", "x86_64", "17179869184\n", "8\n", false);
    assert!(p.apple_silicon);
    assert_eq!(p.memory_bytes, 17_179_869_184);
    assert_eq!(p.physical_cores, 8);
    assert!(matches!(p.acceleration, AccelerationBackend::CoreML));
    assert_eq!(p.recommended_model, "small");
    assert!(!p.mps_available);
}

#[test]
fn intel_with_unreadable_answers() {
    let p = detect("Intel(R) Core(TM) i7", "x86_64", "garbage", "", true);
    assert!(!p.apple_silicon);
    assert_eq!(p.memory_bytes, 0);
    assert_eq!(p.physical_cores, 4);
    assert!(matches!(p.acceleration, AccelerationBackend::Metal));
    assert_eq!(p.recommended_model, "base");
    assert!(p.mps_available);
    let q = detect("x", "aarch64", "17179869183", "0", false);
    assert!(q.apple_silicon);
    assert_eq!(q.physical_cores, 1);
    assert_eq!(q.recommended_model, "base");
}

#[test]
fn platform_helpers() {
    assert!(is_apple_silicon("APPLE M2", "x86_64"));
    assert!(!is_apple_silicon("Intel", "x86_64"));
    assert_eq!(recommended_model(32 << 30), "small");
    assert!(mps_reported(" True\n"));
    assert!(!mps_reported("False"));
    assert_eq!(
        resolve_python_candidates(vec!["/a/python3".to_string()], &["/a/python3".to_string(), "/usr/bin/python3".to_string()]),
        vec!["/a/python3".to_string(), "/usr/bin/python3".to_string()]
    );
}
