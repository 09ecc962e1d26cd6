use ri::java_exception::{check_not_null_message, ttl_from_jlong, DMSCJavaException};

#[test]
fn ttl_from_jlong_maps_negative_to_none() {
    assert_eq!(ttl_from_jlong(-1), None);
    assert_eq!(ttl_from_jlong(0), Some(0));
    assert_eq!(ttl_from_jlong(3600), Some(3600));
}

#[test]
fn ttl_extremes() {
    assert_eq!(ttl_from_jlong(i64::MIN), None);
    assert_eq!(ttl_from_jlong(i64::MAX), Some(i64::MAX as u64));
}

#[test]
fn exception_class_names() {
    assert_eq!(DMSCJavaException::DMSCErrors.class_name(), "com/dunimd/dmsc/DMSCError");
    assert_eq!(DMSCJavaException::ConfigError.class_name(), "com/dunimd/dmsc/DMSCConfigError");
    assert_eq!(DMSCJavaException::ValidationError.class_name(), "com/dunimd/dmsc/validation/DMSCValidationError");
    assert_eq!(DMSCJavaException::AuthError.class_name(), "com/dunimd/dmsc/auth/DMSCAuthError");
    assert_eq!(DMSCJavaException::DatabaseError.class_name(), "com/dunimd/dmsc/database/DMSCDatabaseError");
    assert_eq!(DMSCJavaException::CacheError.class_name(), "com/dunimd/dmsc/cache/DMSCCacheError");
    assert_eq!(DMSCJavaException::NetworkError.class_name(), "com/dunimd/dmsc/DMSCNetworkError");
    assert_eq!(DMSCJavaException::NullPointerError.class_name(), "java/lang/NullPointerException");
    assert_eq!(DMSCJavaException::IllegalArgumentError.class_name(), "java/lang/IllegalArgumentException");
}

#[test]
fn null_check_message() {
    assert_eq!(check_not_null_message(0, "RiHookBus"), Some("RiHookBus pointer is null".to_string()));
    assert_eq!(check_not_null_message(7, "RiHookBus"), None);
}
