use sem_reg::reg::{
    expected_reg_value_change, export_reg_text, reg_value_change_query, Hive, RegExportValue,
};

#[test]
fn reg_export_text() {
    let values = [
        RegExportValue {
            hive: Hive::CurrentUser,
            subkey_path: r"SOFTWARE\Test",
            value_name: "Data",
            bytes: vec![0x43, 0x42, 0x01, 0x0a],
        },
        RegExportValue {
            hive: Hive::LocalMachine,
            subkey_path: r"SOFTWARE\Other",
            value_name: "Empty",
            bytes: vec![],
        },
    ];
    assert_eq!(
        export_reg_text(&values),
        "\u{feff}Windows Registry Editor Version 5.00\r\n\r\n\
         [HKEY_CURRENT_USER\\SOFTWARE\\Test]\r\n\"Data\"=hex:43,42,01,0a\r\n\r\n\
         [HKEY_LOCAL_MACHINE\\SOFTWARE\\Other]\r\n\"Empty\"=hex:\r\n\r\n"
    );
}

#[test]
fn reg_hive_names() {
    assert_eq!(Hive::ClassesRoot.name(), "HKEY_CLASSES_ROOT");
    assert_eq!(Hive::Users.name(), "HKEY_USERS");
    assert_eq!(
        Hive::CurrentUserLocalSettings.name(),
        "HKEY_CURRENT_USER_LOCAL_SETTINGS"
    );
}

#[test]
fn reg_value_change_of_current_user_is_under_users() {
    let change = expected_reg_value_change(Hive::CurrentUser, r"SOFTWARE\Test", "Data", "S-1-5-21");
    assert_eq!(change.hive, "HKEY_USERS");
    assert_eq!(change.key_path, r"S-1-5-21\SOFTWARE\Test");
    assert_eq!(change.value_name, "Data");

    let change = expected_reg_value_change(Hive::LocalMachine, r"SOFTWARE\Test", "Data", "S-1");
    assert_eq!(change.hive, "HKEY_LOCAL_MACHINE");
    assert_eq!(change.key_path, r"SOFTWARE\Test");
}

#[test]
fn reg_value_change_query_escapes_and_joins() {
    let changes = [
        expected_reg_value_change(Hive::Users, r"a\b", "V\"1", ""),
        expected_reg_value_change(Hive::LocalMachine, "c", "W", ""),
    ];
    assert_eq!(
        reg_value_change_query(&changes),
        "SELECT * FROM RegistryValueChangeEvent WHERE \
         Hive=\"HKEY_USERS\" AND KeyPath=\"a\\\\b\" AND ValueName=\"V\\\"1\" OR \
         Hive=\"HKEY_LOCAL_MACHINE\" AND KeyPath=\"c\" AND ValueName=\"W\""
    );
    assert_eq!(
        reg_value_change_query(&[]),
        "SELECT * FROM RegistryValueChangeEvent WHERE"
    );
}
