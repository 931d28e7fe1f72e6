use pqueue::common::{
    check_private_dir, dbus_get_name, dbus_name_exists, dbus_name_for, private_dir_name,
    private_file_name, runtime_file_name, DaemonError, NameError, PidFileError,
    DBUS_INTERFACE, DBUS_METHOD_ADD, DBUS_METHOD_STOP, DBUS_PATH, PRIVATE_DIR_MODE,
};

#[test]
fn test_dbus_get_name() {
    assert!(dbus_get_name("_/+").is_err());
}

#[test]
fn bus_names_take_letters_only() {
    assert_eq!(dbus_get_name("build").unwrap(), "org.ProcessQueue.build");
    assert_eq!(dbus_get_name("Build").unwrap(), "org.ProcessQueue.Build");
    assert_eq!(dbus_get_name(""), Err(NameError));
    assert_eq!(dbus_get_name("a1"), Err(NameError));
    assert_eq!(dbus_get_name("a b"), Err(NameError));
    assert_eq!(dbus_get_name("ab\n"), Err(NameError));
    assert_eq!(dbus_get_name("é"), Err(NameError));
    assert_eq!(dbus_name_for("x", true).unwrap(), "org.ProcessQueue.x");
    assert_eq!(dbus_name_for("x", false), Err(NameError));
}

#[test]
fn bus_constants() {
    assert_eq!(DBUS_INTERFACE, "org.ProcessQueue");
    assert_eq!(DBUS_PATH, "/");
    assert_eq!(DBUS_METHOD_ADD, "Add");
    assert_eq!(DBUS_METHOD_STOP, "Stop");
}

#[test]
fn names_on_the_bus_are_found() {
    let names: Vec<String> = vec!["org.a".to_string(), "org.b".to_string()];
    assert!(dbus_name_exists(&names, "org.b"));
    assert!(!dbus_name_exists(&names, "org.c"));
    assert!(!dbus_name_exists(&Vec::new(), "org.a"));
}

#[test]
fn pid_file_names() {
    assert_eq!(runtime_file_name("build"), "pqueue-build.pid");
    assert_eq!(private_dir_name(1000), "pqueue-1000");
    assert_eq!(private_dir_name(0), "pqueue-0");
    assert_eq!(private_dir_name(4294967295), "pqueue-4294967295");
    assert_eq!(private_file_name("build"), "build.pid");
}

#[test]
fn private_dir_must_be_ours_and_closed() {
    assert_eq!(PRIVATE_DIR_MODE, 0o700);
    assert!(check_private_dir(1000, 100, 1000, 100, 0o700).is_ok());
    assert!(matches!(
        check_private_dir(1000, 100, 0, 100, 0o700),
        Err(PidFileError::OwnershipError)
    ));
    assert!(matches!(
        check_private_dir(1000, 100, 1000, 0, 0o700),
        Err(PidFileError::OwnershipError)
    ));
    assert!(matches!(
        check_private_dir(1000, 100, 1000, 100, 0o755),
        Err(PidFileError::PermissionError)
    ));
    assert!(matches!(
        check_private_dir(1000, 100, 1000, 100, 0o40700),
        Err(PidFileError::PermissionError)
    ));
    assert!(matches!(
        check_private_dir(1, 1, 2, 2, 0o777),
        Err(PidFileError::OwnershipError)
    ));
    let e: DaemonError = PidFileError::IOError("no space".to_string()).into();
    assert!(matches!(e, DaemonError::PidFileError(PidFileError::IOError(_))));
}
