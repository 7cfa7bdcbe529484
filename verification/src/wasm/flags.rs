//! Compilation flags, and the descriptions of them that a front end shows.

use vstd::prelude::*;
use vstd::string::StringExecFns;

verus! {

/// How strings are represented in a generated module.
#[derive(Copy, Clone, Debug, PartialEq, Eq, Structural)]
pub enum WasmStringType {
    ExternRef,
    JsStringBuiltins,
}

/// Whether generated modules are optimised.
#[derive(Copy, Clone, Debug, PartialEq, Eq, Structural)]
pub enum WasmOpt {
    On,
    Off,
}

/// Whether the intermediate representation is printed.
#[derive(Copy, Clone, Debug, PartialEq, Eq, Structural)]
pub enum PrintIR {
    On,
    Off,
}

/// Whether integer instructions are emitted where possible.
#[derive(Copy, Clone, Debug, PartialEq, Eq, Structural)]
pub enum UseIntegers {
    On,
    Off,
}

/// How threads' steps are called.
#[derive(Copy, Clone, Debug, PartialEq, Eq, Structural)]
pub enum Scheduler {
    TypedFuncRef,
    CallIndirect,
}

/// A WebAssembly feature that a flag may rely on.
#[derive(Copy, Clone, Debug, PartialEq, Eq, Structural)]
pub enum WasmFeature {
    ReferenceTypes,
    TypedFunctionReferences,
    JSStringBuiltins,
}

/// Every feature, in declaration order.
pub open spec fn all_features() -> Seq<WasmFeature> {
    seq![
        WasmFeature::ReferenceTypes,
        WasmFeature::TypedFunctionReferences,
        WasmFeature::JSStringBuiltins,
    ]
}

/// Every feature, in declaration order.
pub fn all_wasm_features() -> (r: Vec<WasmFeature>)
    ensures
        r@ == all_features(),
{
    let r = vec![
        WasmFeature::ReferenceTypes,
        WasmFeature::TypedFunctionReferences,
        WasmFeature::JSStringBuiltins,
    ];
    assert(r@ =~= all_features());
    r
}

/// The name under which the host's feature detection knows a feature.
pub open spec fn feature_detect_name(feat: WasmFeature) -> Seq<char> {
    match feat {
        WasmFeature::ReferenceTypes => "referenceTypes"@,
        WasmFeature::TypedFunctionReferences => "typedFunctionReferences"@,
        WasmFeature::JSStringBuiltins => "jsStringBuiltins"@,
    }
}

/// The name under which the host's feature detection knows a feature.
pub fn wasm_feature_detect_name(feat: WasmFeature) -> (r: String)
    ensures
        r@ == feature_detect_name(feat),
{
    match feat {
        WasmFeature::ReferenceTypes => String::from_str("referenceTypes"),
        WasmFeature::TypedFunctionReferences => String::from_str("typedFunctionReferences"),
        WasmFeature::JSStringBuiltins => String::from_str("jsStringBuiltins"),
    }
}

/// A copy of a list of features.
fn copy_features(features: &Vec<WasmFeature>) -> (r: Vec<WasmFeature>)
    ensures
        r@ == features@,
{
    let mut r: Vec<WasmFeature> = Vec::new();
    let mut i: usize = 0;
    while i < features.len()
        invariant
            i <= features@.len(),
            r@ == features@.subrange(0, i as int),
        decreases features@.len() - i,
    {
        r.push(features[i]);
        assert(features@.subrange(0, i + 1) =~= features@.subrange(0, i as int).push(features@[i as int]));
        i = i + 1;
    }
    assert(features@.subrange(0, features@.len() as int) =~= features@);
    r
}

/// What a front end shows of a flag.
pub struct FlagInfo {
    /// a human-readable name for the flag
    pub name: String,
    pub description: String,
    pub ty: String,
    /// for each setting of the flag, the features that it relies on, by
    /// setting name in ascending order
    pub wasm_features: Vec<(String, Vec<WasmFeature>)>,
}

/// The features of each setting, by name.
pub type SettingFeatures = Seq<(Seq<char>, Seq<WasmFeature>)>;

impl FlagInfo {
    /// What is shown: (name, description, type, features of the settings).
    pub open spec fn shown(&self) -> (Seq<char>, Seq<char>, Seq<char>, SettingFeatures) {
        (self.name@, self.description@, self.ty@, self.features())
    }

    /// The settings' features, by name.
    pub open spec fn features(&self) -> SettingFeatures {
        self.wasm_features@.map_values(|e: (String, Vec<WasmFeature>)| (e.0@, e.1@))
    }

    /// Each setting with the features that it relies on, by setting name in
    /// ascending order.
    pub fn settings(&self) -> (r: &Vec<(String, Vec<WasmFeature>)>)
        ensures
            r@.map_values(|e: (String, Vec<WasmFeature>)| (e.0@, e.1@)) == self.features(),
    {
        &self.wasm_features
    }

    fn new() -> (r: Self)
        ensures
            r.name@ == Seq::<char>::empty(),
            r.description@ == Seq::<char>::empty(),
            r.ty@ == Seq::<char>::empty(),
            r.features() == SettingFeatures::empty(),
    {
        let r = FlagInfo {
            name: String::new(),
            description: String::new(),
            ty: String::new(),
            wasm_features: Vec::new(),
        };
        assert(r.features() =~= SettingFeatures::empty());
        r
    }

    fn with_name(self, name: &str) -> (r: Self)
        ensures
            r.name@ == name@,
            r.description == self.description,
            r.ty == self.ty,
            r.features() == self.features(),
    {
        FlagInfo { name: String::from_str(name), ..self }
    }

    fn with_description(self, description: &str) -> (r: Self)
        ensures
            r.name == self.name,
            r.description@ == description@,
            r.ty == self.ty,
            r.features() == self.features(),
    {
        FlagInfo { description: String::from_str(description), ..self }
    }

    fn with_ty(self, ty: &str) -> (r: Self)
        ensures
            r.name == self.name,
            r.description == self.description,
            r.ty@ == ty@,
            r.features() == self.features(),
    {
        FlagInfo { ty: String::from_str(ty), ..self }
    }

    fn with_wasm_features(self, wasm_features: Vec<(String, Vec<WasmFeature>)>) -> (r: Self)
        ensures
            r.name == self.name,
            r.description == self.description,
            r.ty == self.ty,
            r.wasm_features@ == wasm_features@,
    {
        FlagInfo { wasm_features, ..self }
    }

    /// The features that the setting `flag` relies on, if the flag has that
    /// setting.
    pub fn wasm_features(&self, flag: &str) -> (r: Option<Vec<WasmFeature>>)
        ensures
            match r {
                Some(v) => exists|i: int|
                    0 <= i < self.features().len() && #[trigger] self.features()[i] == (
                        flag@,
                        v@,
                    ) && forall|j: int|
                        0 <= j < i ==> self.features()[j].0 != flag@,
                None => forall|i: int|
                    0 <= i < self.features().len() ==> #[trigger] self.features()[i].0 != flag@,
            },
    {
        let key = String::from_str(flag);
        let mut i: usize = 0;
        while i < self.wasm_features.len()
            invariant
                i <= self.wasm_features@.len(),
                key@ == flag@,
                forall|j: int| 0 <= j < i ==> self.features()[j].0 != flag@,
            decreases self.wasm_features@.len() - i,
        {
            let entry = &self.wasm_features[i];
            if entry.0 == key {
                let v = copy_features(&entry.1);
                assert(self.features()[i as int] == (flag@, v@));
                return Some(v);
            }
            i = i + 1;
        }
        None
    }
}

/// Compilation flags.
#[derive(Copy, Clone, Debug)]
pub struct WasmFlags {
    pub string_type: WasmStringType,
    pub wasm_opt: WasmOpt,
    pub scheduler: Scheduler,
    pub print_ir: PrintIR,
    pub integers: UseIntegers,
}

impl WasmFlags {
    /// The default flags for a host with the given features: strings use the
    /// JS string builtins when the host has them.
    pub fn new(wasm_features: Vec<WasmFeature>) -> (r: Self)
        ensures
            r.wasm_opt == WasmOpt::On,
            r.string_type == (if wasm_features@.contains(WasmFeature::JSStringBuiltins) {
                WasmStringType::JsStringBuiltins
            } else {
                WasmStringType::ExternRef
            }),
            r.scheduler == Scheduler::CallIndirect,
            r.print_ir == PrintIR::Off,
            r.integers == UseIntegers::Off,
    {
        let mut has_builtins = false;
        let mut i: usize = 0;
        while i < wasm_features.len()
            invariant
                i <= wasm_features@.len(),
                has_builtins == wasm_features@.subrange(0, i as int).contains(
                    WasmFeature::JSStringBuiltins,
                ),
            decreases wasm_features@.len() - i,
        {
            proof {
                let s = wasm_features@.subrange(0, i + 1);
                assert(s =~= wasm_features@.subrange(0, i as int).push(wasm_features@[i as int]));
                if s.contains(WasmFeature::JSStringBuiltins) {
                    let k = choose|k: int| 0 <= k < s.len() && s[k] == WasmFeature::JSStringBuiltins;
                    if k < i {
                        assert(wasm_features@.subrange(0, i as int)[k] == WasmFeature::JSStringBuiltins);
                    }
                }
                if wasm_features@.subrange(0, i as int).contains(WasmFeature::JSStringBuiltins) {
                    let k = choose|k: int| 0 <= k < i && wasm_features@.subrange(0, i as int)[k] == WasmFeature::JSStringBuiltins;
                    assert(s[k] == WasmFeature::JSStringBuiltins);
                }
            }
            if wasm_features[i] == WasmFeature::JSStringBuiltins {
                has_builtins = true;
                assert(wasm_features@.subrange(0, i + 1)[i as int] == WasmFeature::JSStringBuiltins);
            }
            i = i + 1;
        }
        assert(wasm_features@.subrange(0, wasm_features@.len() as int) =~= wasm_features@);
        WasmFlags {
            wasm_opt: WasmOpt::On,
            string_type: if has_builtins {
                WasmStringType::JsStringBuiltins
            } else {
                WasmStringType::ExternRef
            },
            scheduler: Scheduler::CallIndirect,
            print_ir: PrintIR::Off,
            integers: UseIntegers::Off,
        }
    }
}

/// The features of the settings of `string_type`.
pub open spec fn string_type_features() -> SettingFeatures {
    seq![
        ("ExternRef"@, seq![WasmFeature::ReferenceTypes]),
        ("JsStringBuiltins"@, seq![WasmFeature::ReferenceTypes, WasmFeature::JSStringBuiltins]),
    ]
}

/// The features of the settings of `scheduler`.
pub open spec fn scheduler_features() -> SettingFeatures {
    seq![("TypedFuncRef"@, seq![WasmFeature::TypedFunctionReferences])]
}

/// What a front end shows of the flag `flag`: (name, description, type,
/// features of its settings).
pub open spec fn flag_info_spec(flag: Seq<char>) -> (Seq<char>, Seq<char>, Seq<char>, SettingFeatures) {
    if flag == "string_type"@ {
        ("Internal string representation"@, "ExternRef - uses JavaScript strings.<br>JsStringBuiltins (recommended) - uses JavaScript strings with the JS String Builtins proposal"@, "WasmStringType"@, string_type_features())
    } else if flag == "wasm_opt"@ {
        ("WASM optimisation"@, "Should we try to optimise generated WASM modules using wasm-opt?"@, "WasmOpt"@, SettingFeatures::empty())
    } else if flag == "scheduler"@ {
        ("Scheduler"@, "TypedFuncRef - uses typed function references to eliminate runtime checks.<br>CallIndirect - stores function indices, then uses CallIndirect to call them."@, "Scheduler"@, scheduler_features())
    } else if flag == "print_ir"@ {
        ("Print IR"@, "For debugging purposes only"@, "PrintIR"@, SettingFeatures::empty())
    } else if flag == "integers"@ {
        ("Integers"@, "Emit integer instructions wherever possible. May make things faster at the cost of possible overflow, or may slow things down if mixed with floats."@, "UseIntegers"@, SettingFeatures::empty())
    } else {
        ("unknown setting '"@ + flag + "'"@, Seq::empty(), Seq::empty(), SettingFeatures::empty())
    }
}

/// Is `a` the string `b`?
fn str_is(a: &str, b: &str) -> (r: bool)
    ensures
        r == (a@ == b@),
{
    String::from_str(a) == String::from_str(b)
}

impl WasmFlags {
    /// What a front end shows of the flag `flag`: its name, a description, the
    /// name of its type and the features that its settings rely on.
    pub fn flag_info(flag: &str) -> (r: FlagInfo)
        ensures
            r.shown() == flag_info_spec(flag@),
    {
        proof {
            reveal_strlit("string_type");
            reveal_strlit("wasm_opt");
            reveal_strlit("scheduler");
            reveal_strlit("print_ir");
            reveal_strlit("integers");
        }
        if str_is(flag, "string_type") {
            let mut features: Vec<(String, Vec<WasmFeature>)> = Vec::new();
            let mut f1: Vec<WasmFeature> = Vec::new();
            f1.push(WasmFeature::ReferenceTypes);
            let mut f2: Vec<WasmFeature> = Vec::new();
            f2.push(WasmFeature::ReferenceTypes);
            f2.push(WasmFeature::JSStringBuiltins);
            assert(f1@ =~= seq![WasmFeature::ReferenceTypes]);
            assert(f2@ =~= seq![WasmFeature::ReferenceTypes, WasmFeature::JSStringBuiltins]);
            features.push((String::from_str("ExternRef"), f1));
            features.push((String::from_str("JsStringBuiltins"), f2));
            let r = FlagInfo::new().with_name("Internal string representation").with_description(
                "ExternRef - uses JavaScript strings.<br>JsStringBuiltins (recommended) - uses JavaScript strings with the JS String Builtins proposal",
            ).with_ty("WasmStringType").with_wasm_features(features);
            assert(r.features() =~= string_type_features());
            r
        } else if str_is(flag, "wasm_opt") {
            FlagInfo::new().with_name("WASM optimisation").with_description("Should we try to optimise generated WASM modules using wasm-opt?").with_ty("WasmOpt")
        } else if str_is(flag, "scheduler") {
            let mut features: Vec<(String, Vec<WasmFeature>)> = Vec::new();
            let mut f1: Vec<WasmFeature> = Vec::new();
            f1.push(WasmFeature::TypedFunctionReferences);
            assert(f1@ =~= seq![WasmFeature::TypedFunctionReferences]);
            features.push((String::from_str("TypedFuncRef"), f1));
            let r = FlagInfo::new().with_name("Scheduler").with_description("TypedFuncRef - uses typed function references to eliminate runtime checks.<br>CallIndirect - stores function indices, then uses CallIndirect to call them.").with_ty(
                "Scheduler",
            ).with_wasm_features(features);
            assert(r.features() =~= scheduler_features());
            r
        } else if str_is(flag, "print_ir") {
            FlagInfo::new().with_name("Print IR").with_description("For debugging purposes only").with_ty("PrintIR")
        } else if str_is(flag, "integers") {
            FlagInfo::new().with_name("Integers").with_description("Emit integer instructions wherever possible. May make things faster at the cost of possible overflow, or may slow things down if mixed with floats.").with_ty("UseIntegers")
        } else {
            let mut name = String::from_str("unknown setting '");
            name.append(flag);
            name.append("'");
            FlagInfo { name, ..FlagInfo::new() }
        }
    }
}

} // verus!
