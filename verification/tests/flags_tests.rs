use hyperquark::wasm::flags::{
    all_wasm_features, wasm_feature_detect_name, PrintIR, Scheduler, UseIntegers, WasmFeature,
    WasmFlags, WasmOpt, WasmStringType,
};

#[test]
fn default_flags_use_string_builtins_only_where_available() {
    let with = WasmFlags::new(vec![WasmFeature::ReferenceTypes, WasmFeature::JSStringBuiltins]);
    assert_eq!(with.string_type, WasmStringType::JsStringBuiltins);
    let without = WasmFlags::new(vec![WasmFeature::ReferenceTypes]);
    assert_eq!(without.string_type, WasmStringType::ExternRef);
    let none = WasmFlags::new(vec![]);
    assert_eq!(none.string_type, WasmStringType::ExternRef);
    assert_eq!(none.wasm_opt, WasmOpt::On);
    assert_eq!(none.scheduler, Scheduler::CallIndirect);
    assert_eq!(none.print_ir, PrintIR::Off);
    assert_eq!(none.integers, UseIntegers::Off);
}

#[test]
fn feature_detection_names() {
    assert_eq!(wasm_feature_detect_name(WasmFeature::ReferenceTypes), "referenceTypes");
    assert_eq!(
        wasm_feature_detect_name(WasmFeature::TypedFunctionReferences),
        "typedFunctionReferences"
    );
    assert_eq!(wasm_feature_detect_name(WasmFeature::JSStringBuiltins), "jsStringBuiltins");
    assert_eq!(
        all_wasm_features(),
        vec![
            WasmFeature::ReferenceTypes,
            WasmFeature::TypedFunctionReferences,
            WasmFeature::JSStringBuiltins
        ]
    );
}

#[test]
fn flag_info_describes_known_flags() {
    let info = WasmFlags::flag_info("string_type");
    assert_eq!(info.name, "Internal string representation");
    assert_eq!(info.ty, "WasmStringType");
    assert_eq!(
        info.wasm_features("JsStringBuiltins"),
        Some(vec![WasmFeature::ReferenceTypes, WasmFeature::JSStringBuiltins])
    );
    assert_eq!(info.wasm_features("ExternRef"), Some(vec![WasmFeature::ReferenceTypes]));
    assert_eq!(info.wasm_features("Other"), None);

    let scheduler = WasmFlags::flag_info("scheduler");
    assert_eq!(scheduler.name, "Scheduler");
    assert_eq!(
        scheduler.wasm_features("TypedFuncRef"),
        Some(vec![WasmFeature::TypedFunctionReferences])
    );
    assert_eq!(scheduler.wasm_features("CallIndirect"), None);

    assert_eq!(WasmFlags::flag_info("wasm_opt").name, "WASM optimisation");
    assert_eq!(WasmFlags::flag_info("print_ir").ty, "PrintIR");
    assert_eq!(WasmFlags::flag_info("integers").name, "Integers");
}

#[test]
fn flag_info_of_an_unknown_flag_names_it() {
    let info = WasmFlags::flag_info("colour");
    assert_eq!(info.name, "unknown setting 'colour'");
    assert_eq!(info.description, "");
    assert_eq!(info.ty, "");
    assert_eq!(info.wasm_features("anything"), None);
}
