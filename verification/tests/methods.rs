use canister_sandbox::exports::{decimal, mutable_global_exports, rename_exports, shift_exports};
use canister_sandbox::methods::{
    collect_methods, same_text, starts_with, SystemMethod, WasmMethod,
};
use canister_sandbox::model::{Export, ExportKind};

fn export(name: &str, kind: ExportKind, index: u32) -> Export {
    Export { name: name.to_string(), kind, index }
}

fn plain(exports: &[Export]) -> Vec<(String, ExportKind, u32)> {
    exports.iter().map(|e| (e.name.clone(), e.kind, e.index)).collect()
}

#[test]
fn update_and_query_names_are_recognized() {
    match WasmMethod::parse("canister_update transfer") {
        Some(WasmMethod::Update(name)) => assert_eq!(name, "transfer"),
        other => panic!("{:?}", other),
    }
    match WasmMethod::parse("canister_query balance of") {
        Some(WasmMethod::Query(name)) => assert_eq!(name, "balance of"),
        other => panic!("{:?}", other),
    }
    match WasmMethod::parse("canister_update ") {
        Some(WasmMethod::Update(name)) => assert_eq!(name, ""),
        other => panic!("{:?}", other),
    }
}

#[test]
fn system_methods_are_recognized_by_their_names() {
    let cases = [
        ("canister_start", SystemMethod::CanisterStart),
        ("canister_init", SystemMethod::CanisterInit),
        ("canister_pre_upgrade", SystemMethod::CanisterPreUpgrade),
        ("canister_post_upgrade", SystemMethod::CanisterPostUpgrade),
        ("canister_inspect_message", SystemMethod::CanisterInspectMessage),
        ("canister_heartbeat", SystemMethod::CanisterHeartbeat),
    ];
    for (name, method) in cases {
        assert_eq!(SystemMethod::parse(name), Some(method));
        match WasmMethod::parse(name) {
            Some(WasmMethod::System(found)) => assert_eq!(found, method),
            other => panic!("{:?}", other),
        }
    }
}

#[test]
fn other_names_are_no_methods() {
    for name in [
        "",
        "memory",
        "canister_update",
        "canister_query",
        "canister counter_set",
        "canister_init ",
        "Canister_init",
        "canister_updatex f",
    ] {
        assert!(WasmMethod::parse(name).is_none(), "{}", name);
    }
}

#[test]
fn text_helpers_compare_characters() {
    assert!(starts_with("canister_update f", "canister_update "));
    assert!(starts_with("abc", ""));
    assert!(!starts_with("ab", "abc"));
    assert!(!starts_with("abd", "abc"));
    assert!(starts_with("\u{e9}t\u{e9}", "\u{e9}t"));
    assert!(same_text("abc", "abc"));
    assert!(!same_text("abc", "abcd"));
    assert!(!same_text("abc", "abd"));
}

#[test]
fn methods_are_collected_once_in_the_order_of_the_exports() {
    let exports = vec![
        export("canister_query q", ExportKind::Function, 3),
        export("memory", ExportKind::Memory, 0),
        export("canister_init", ExportKind::Function, 4),
        export("canister_query q", ExportKind::Function, 5),
        export("canister_update q", ExportKind::Function, 6),
    ];
    let methods = collect_methods(&exports);
    assert_eq!(methods.len(), 3);
    assert!(methods[0].same(&WasmMethod::Query("q".to_string())));
    assert!(methods[1].same(&WasmMethod::System(SystemMethod::CanisterInit)));
    assert!(methods[2].same(&WasmMethod::Update("q".to_string())));
    assert!(!methods[0].same(&methods[2]));
}

#[test]
fn function_exports_are_shifted_by_two() {
    let exports = vec![
        export("f", ExportKind::Function, 0),
        export("g", ExportKind::Global, 7),
        export("h", ExportKind::Function, u32::MAX),
    ];
    assert_eq!(
        plain(&shift_exports(&exports)),
        vec![
            ("f".to_string(), ExportKind::Function, 2),
            ("g".to_string(), ExportKind::Global, 7),
            ("h".to_string(), ExportKind::Function, 1),
        ]
    );
}

#[test]
fn exports_of_a_kind_get_the_canonical_name() {
    let exports = vec![
        export("mem", ExportKind::Memory, 0),
        export("f", ExportKind::Function, 1),
        export("other", ExportKind::Memory, 0),
    ];
    let (renamed, found) = rename_exports(&exports, ExportKind::Memory, "memory");
    assert!(found);
    assert_eq!(
        plain(&renamed),
        vec![
            ("memory".to_string(), ExportKind::Memory, 0),
            ("f".to_string(), ExportKind::Function, 1),
            ("memory".to_string(), ExportKind::Memory, 0),
        ]
    );
    let (same, found) = rename_exports(&exports, ExportKind::Table, "table");
    assert!(!found);
    assert_eq!(plain(&same), plain(&exports));
}

#[test]
fn numbers_are_written_in_decimal() {
    assert_eq!(decimal(0), "0");
    assert_eq!(decimal(7), "7");
    assert_eq!(decimal(10), "10");
    assert_eq!(decimal(1234567890), "1234567890");
    assert_eq!(decimal(usize::MAX), usize::MAX.to_string());
}

#[test]
fn mutable_globals_that_are_not_exported_get_an_export() {
    let globals = vec![true, false, true, true];
    let exports = vec![
        export("g2", ExportKind::Global, 2),
        export("f", ExportKind::Function, 0),
        export("beyond", ExportKind::Global, 9),
    ];
    assert_eq!(
        plain(&mutable_global_exports(&globals, &exports)),
        vec![
            ("__persistent_mutable_global_0".to_string(), ExportKind::Global, 0),
            ("__persistent_mutable_global_3".to_string(), ExportKind::Global, 3),
        ]
    );
    assert!(mutable_global_exports(&Vec::new(), &exports).is_empty());
}
