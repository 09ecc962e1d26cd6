//! The Java exception classes that native errors are thrown as, and the
//! decisions taken before a native call reaches Java.

use vstd::prelude::*;

verus! {

/// The exception types thrown to Java.
pub enum DMSCJavaException {
    DMSCErrors,
    ConfigError,
    ValidationError,
    AuthError,
    DatabaseError,
    CacheError,
    NetworkError,
    NullPointerError,
    IllegalArgumentError,
}

/// The JNI class name of each exception type.
pub open spec fn exception_class(e: DMSCJavaException) -> Seq<char> {
    match e {
        DMSCJavaException::DMSCErrors => "com/dunimd/dmsc/DMSCError"@,
        DMSCJavaException::ConfigError => "com/dunimd/dmsc/DMSCConfigError"@,
        DMSCJavaException::ValidationError => "com/dunimd/dmsc/validation/DMSCValidationError"@,
        DMSCJavaException::AuthError => "com/dunimd/dmsc/auth/DMSCAuthError"@,
        DMSCJavaException::DatabaseError => "com/dunimd/dmsc/database/DMSCDatabaseError"@,
        DMSCJavaException::CacheError => "com/dunimd/dmsc/cache/DMSCCacheError"@,
        DMSCJavaException::NetworkError => "com/dunimd/dmsc/DMSCNetworkError"@,
        DMSCJavaException::NullPointerError => "java/lang/NullPointerException"@,
        DMSCJavaException::IllegalArgumentError => "java/lang/IllegalArgumentException"@,
    }
}

impl DMSCJavaException {
    /// The JNI class name of this exception type.
    pub fn class_name(&self) -> (name: &'static str)
        ensures
            name@ == exception_class(*self),
    {
        match self {
            DMSCJavaException::DMSCErrors => "com/dunimd/dmsc/DMSCError",
            DMSCJavaException::ConfigError => "com/dunimd/dmsc/DMSCConfigError",
            DMSCJavaException::ValidationError => "com/dunimd/dmsc/validation/DMSCValidationError",
            DMSCJavaException::AuthError => "com/dunimd/dmsc/auth/DMSCAuthError",
            DMSCJavaException::DatabaseError => "com/dunimd/dmsc/database/DMSCDatabaseError",
            DMSCJavaException::CacheError => "com/dunimd/dmsc/cache/DMSCCacheError",
            DMSCJavaException::NetworkError => "com/dunimd/dmsc/DMSCNetworkError",
            DMSCJavaException::NullPointerError => "java/lang/NullPointerException",
            DMSCJavaException::IllegalArgumentError => "java/lang/IllegalArgumentException",
        }
    }
}

/// The check made on a native pointer received from Java: `None` when it is
/// not null; otherwise the message of the null pointer exception to throw,
/// "<context> pointer is null".
pub fn check_not_null_message(ptr: i64, context: &str) -> (msg: Option<String>)
    ensures
        ptr != 0 ==> msg is None,
        ptr == 0 ==> (msg matches Some(m) && m@ == context@ + " pointer is null"@),
{
    if ptr == 0 {
        let mut m = context.to_owned();
        m.append(" pointer is null");
        Some(m)
    } else {
        None
    }
}

/// The time to live that Java passes as a signed number of seconds: a
/// negative value means none.
pub fn ttl_from_jlong(ttl_secs: i64) -> (ttl: Option<u64>)
    ensures
        ttl_secs >= 0 ==> ttl == Some(ttl_secs as u64),
        ttl_secs < 0 ==> ttl is None,
{
    if ttl_secs >= 0 {
        Some(ttl_secs as u64)
    } else {
        None
    }
}

} // verus!
