use clave::Error;

#[test]
fn messages_name_the_kind() {
    assert_eq!(Error::PoisonedLock.message(), "a mutex lock was poisoned");
    assert_eq!(Error::Tauri("no window".to_string()).message(), "tauri error: no window");
    assert_eq!(Error::Database("disk I/O error".to_string()).message(), "database error: disk I/O error");
    assert_eq!(Error::FileSystem("denied".to_string()).message(), "filesystem error: denied");
}

#[test]
fn poisoned_lock_converts() {
    let e: Error = std::sync::PoisonError::new(5u8).into();
    assert_eq!(e, Error::PoisonedLock);
}
