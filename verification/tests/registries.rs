use ri::jni_registry::{is_jni_ptr_valid, register_jni_ptr, unregister_jni_ptr, JniPointerRegistry};
use ri::validation_registry::{is_valid_ptr, new_registry, register_ptr, unregister_ptr, BuilderSlot};

#[test]
fn jni_pointer_lifecycle() {
    let mut reg = JniPointerRegistry::new();
    assert!(!is_jni_ptr_valid(&reg, 0x1000));
    register_jni_ptr(&mut reg, 0x1000);
    assert!(is_jni_ptr_valid(&reg, 0x1000));
    assert!(!is_jni_ptr_valid(&reg, 0x2000));
    unregister_jni_ptr(&mut reg, 0x1000);
    assert!(!is_jni_ptr_valid(&reg, 0x1000));
}

#[test]
fn null_pointer_is_never_valid() {
    let mut reg = JniPointerRegistry::new();
    register_jni_ptr(&mut reg, 0);
    assert!(!is_jni_ptr_valid(&reg, 0));
}

#[test]
fn validation_registry_lifecycle() {
    let mut reg = new_registry();
    assert!(!is_valid_ptr(&reg, 42));
    register_ptr(&mut reg, 42);
    assert!(is_valid_ptr(&reg, 42));
    assert!(unregister_ptr(&mut reg, 42));
    assert!(!unregister_ptr(&mut reg, 42));
    assert!(!is_valid_ptr(&reg, 42));
    register_ptr(&mut reg, 0);
    assert!(!is_valid_ptr(&reg, 0));
}

#[test]
fn builder_slot_is_consumed_once() {
    let mut slot = BuilderSlot::new(vec!["not_empty".to_string()]);
    slot.modify(|mut b: Vec<String>| {
        b.push("min_length(3)".to_string());
        b
    });
    let built = slot.take_builder();
    assert_eq!(built, Some(vec!["not_empty".to_string(), "min_length(3)".to_string()]));
    assert_eq!(slot.take_builder(), None);
    slot.modify(|mut b: Vec<String>| {
        b.push("never".to_string());
        b
    });
    assert_eq!(slot.take_builder(), None);
}
