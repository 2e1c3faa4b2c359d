use terminal_api::collect::{
    extract_module_functions, parse_api_functions, parse_module_api_functions, ModuleSource,
    SeenFunctions,
};
use terminal_api::error::BuildError;
use terminal_api::extract::{
    extract_parameters, extract_result_types, is_valid_api_function, parse_enum_doc_comment,
    parse_function, ApiFunctionInfo,
};
use terminal_api::source::parse_declarations;
use terminal_api::syntax::{ArgDecl, AttrDecl, FnDecl, ItemDecl, TypeArg, TypeArgKind, TypeTail};

fn only_function(code: &str) -> FnDecl {
    let mut items = parse_declarations(code).unwrap_or_else(|e| panic!("{}: {}", code, e));
    assert_eq!(items.len(), 1);
    match items.remove(0) {
        ItemDecl::Function(func) => func,
        ItemDecl::Other => panic!("not a function"),
    }
}

fn module(name: &str, code: &str) -> ModuleSource {
    ModuleSource { name: name.to_string(), code: code.to_string() }
}

fn names(functions: &[ApiFunctionInfo]) -> Vec<String> {
    functions.iter().map(|f| format!("{}::{}", f.module_name, f.function_name)).collect()
}

fn check_test_function(functions: &[ApiFunctionInfo]) {
    assert_eq!(functions.len(), 1);
    let func = &functions[0];
    assert_eq!(func.module_name, "test_api");
    assert_eq!(func.function_name, "test_function");
    assert_eq!(func.parameters.len(), 2);
    assert_eq!(func.parameters[0].name, "param1");
    assert_eq!(func.parameters[0].ty, "String");
    assert_eq!(func.parameters[1].name, "param2");
    assert_eq!(func.parameters[1].ty, "i32");
    assert_eq!(func.result_types.value, "Vec < String >");
    assert_eq!(func.result_types.error, "CustomError");
    assert_eq!(func.documentation, "Test function documentation");
}

#[test]
fn test_parse_api_functions() {
    // test with a valid function
    let api_content = r#"
            /// Test function documentation
            pub async fn test_function(
                configuration: &Configuration,
                param1: String,
                param2: i32,
            ) -> Result<Vec<String>, Error<CustomError>> {
                todo!()
            }
        "#;
    let functions = parse_api_functions(&vec![module("test_api", api_content)]).unwrap();
    check_test_function(&functions);

    // test with a valid function with weird whitespace
    let api_content = r#"
            /// Test function documentation
            pub async 
            fn test_function     (
                configuration: &Configuration,
                param1:
        String,
                param2   :   i32,
            ) -> Result<
             Vec<String>, Error<
             CustomError>       > {
                todo!   ()
            }
        "#;
    let functions = parse_api_functions(&vec![module("test_api", api_content)]).unwrap();
    check_test_function(&functions);
}

#[test]
fn test_parse_api_functions_with_duplicate_names() {
    let api_content = r#"
            /// Test function documentation
            pub async fn test_function(configuration: &Configuration) -> Result<(), Error<()>> {
                todo!()
            }
        "#;
    let api_content2 = r#"
            /// Test function documentation
            pub async fn test_function(configuration: &Configuration) -> Result<(), Error<()>> {
                todo!()
            }
        "#;
    let functions = parse_api_functions(&vec![
        module("test_api", api_content),
        module("test_api2", api_content2),
    ])
    .unwrap();
    assert_eq!(functions.len(), 2);
    assert_eq!(functions[0].function_name, "test_function");
    assert_eq!(functions[1].function_name, "test_function_2");
    assert_eq!(functions[0].declared_name, "test_function");
    assert_eq!(functions[1].declared_name, "test_function");
}

#[test]
fn test_parse_api_functions_with_errors() {
    // a function without a configuration argument
    let functions = parse_api_functions(&vec![module(
        "test_api",
        "pub async fn test_function() -> Result<(), Error<()>> { todo!() }",
    )])
    .unwrap();
    assert!(functions.is_empty());

    // with valid function but an invalid return type
    let functions = parse_api_functions(&vec![module(
        "test_api",
        "pub async fn test_function() -> Result<(), Error<()>> { todo!() }",
    )])
    .unwrap();
    assert!(functions.is_empty());
}

#[test]
fn test_is_valid_api_function() {
    // valid API function
    let valid_fn = only_function(
        "pub async fn valid_api(configuration: &Configuration) -> Result<(), Error<()>> {
                todo!()
            }",
    );
    assert!(is_valid_api_function(&valid_fn));

    // not public
    let private_fn = only_function(
        "async fn private_api(configuration: &Configuration) -> Result<(), Error<()>> {
                todo!()
            }",
    );
    assert!(!is_valid_api_function(&private_fn));

    // not async
    let sync_fn = only_function(
        "pub fn sync_api(configuration: &Configuration) -> Result<(), Error<()>> {
                todo!()
            }",
    );
    assert!(!is_valid_api_function(&sync_fn));

    // no configuration parameter
    let no_config_fn = only_function(
        "pub async fn no_config_api() -> Result<(), Error<()>> {
                todo!()
            }",
    );
    assert!(!is_valid_api_function(&no_config_fn));
}

#[test]
fn test_extract_parameters() {
    let func = only_function(
        "async fn test(
                configuration: &Configuration,
                param1: String,
                param2: Vec<i32>,
            ) -> Result<(), Error<()>> {}",
    );

    let params = extract_parameters(&func.inputs);
    assert_eq!(params.len(), 2); // configuration should be filtered out
    assert_eq!(params[0].name, "param1");
    assert_eq!(params[0].ty, "String");
    assert_eq!(params[1].name, "param2");
    assert_eq!(params[1].ty, "Vec < i32 >");
}

#[test]
fn test_extract_result_types() {
    // simple types
    let func = only_function("fn f() -> Result<String, Error<CustomError>> {}");
    let result = extract_result_types(&func.output).unwrap();
    assert_eq!(result.value, "String");
    assert_eq!(result.error, "CustomError");

    // complex generic types
    let func = only_function("fn f() -> Result<Vec<HashMap<String, i32>>, Error<ComplexError>> {}");
    let result = extract_result_types(&func.output).unwrap();
    assert_eq!(result.value, "Vec < HashMap < String , i32 > >");
    assert_eq!(result.error, "ComplexError");

    // invalid return type (not a Result)
    let func = only_function("fn f() -> String {}");
    assert!(extract_result_types(&func.output).is_none());
}

#[test]
fn test_parse_enum_doc_comment() {
    let func = only_function("#[doc = \"Test documentation\"] fn f() {}");
    assert_eq!(parse_enum_doc_comment(&func.attrs), "Test documentation");

    // empty attributes
    assert_eq!(parse_enum_doc_comment(&vec![]), "");

    // non-doc attribute
    let func = only_function("#[derive(Debug)] fn f() {}");
    assert_eq!(parse_enum_doc_comment(&func.attrs), "");
}

#[test]
fn declarations_are_read_in_full() {
    let code = r#"
        use std::collections::HashMap;

        /// First line
        /// Second line
        #[inline]
        pub async fn get(configuration: &Configuration, mut id: &str, (a, b): (u8, u8))
            -> std::result::Result<Vec<Item>, Error<GetError, Extra>> { todo!() }

        struct Unrelated;

        pub(crate) fn helper(&self) {}
    "#;
    let items = parse_declarations(code).unwrap();
    assert_eq!(items.len(), 4);
    assert!(matches!(items[0], ItemDecl::Other));
    assert!(matches!(items[2], ItemDecl::Other));
    let ItemDecl::Function(get) = &items[1] else { panic!("not a function") };
    assert!(get.is_public);
    assert!(get.is_async);
    assert_eq!(get.name, "get");
    assert_eq!(get.inputs.len(), 3);
    assert!(matches!(&get.inputs[0], ArgDecl::Named { name, ty } if name == "configuration" && ty == "& Configuration"));
    assert!(matches!(&get.inputs[1], ArgDecl::Named { name, ty } if name == "id" && ty == "& str"));
    assert!(matches!(&get.inputs[2], ArgDecl::Other));
    assert_eq!(get.attrs.len(), 3);
    assert_eq!(get.attrs[0].name.as_deref(), Some("doc"));
    assert_eq!(get.attrs[0].value.as_deref(), Some(" First line"));
    assert_eq!(get.attrs[1].value.as_deref(), Some(" Second line"));
    assert_eq!(get.attrs[2].name.as_deref(), Some("inline"));
    assert_eq!(get.attrs[2].value, None);
    let tail = get.output.as_ref().unwrap();
    assert_eq!(tail.ident, "Result");
    let args = tail.args.as_ref().unwrap();
    assert_eq!(args.len(), 2);
    assert_eq!(args[0].text, "Vec < Item >");
    assert!(matches!(&args[0].kind, TypeArgKind::Path { ident, args: Some(inner) } if ident == "Vec" && inner.len() == 1 && inner[0] == "Item"));
    assert_eq!(args[1].text, "Error < GetError , Extra >");
    assert!(matches!(&args[1].kind, TypeArgKind::Path { ident, args: Some(inner) } if ident == "Error" && inner.len() == 2 && inner[0] == "GetError" && inner[1] == "Extra"));
    let ItemDecl::Function(helper) = &items[3] else { panic!("not a function") };
    assert!(!helper.is_public);
    assert!(!helper.is_async);
    assert_eq!(helper.inputs.len(), 1);
    assert!(matches!(&helper.inputs[0], ArgDecl::Other));
    assert!(helper.output.is_none());
    assert!(helper.attrs.is_empty());
}

#[test]
fn kinds_of_generic_arguments() {
    let func = only_function("fn f() -> Result<(), Error<()>, 'a, 3> {}");
    let args = func.output.unwrap().args.unwrap();
    assert_eq!(args.len(), 4);
    assert!(matches!(args[0].kind, TypeArgKind::Type));
    assert_eq!(args[0].text, "()");
    assert!(matches!(&args[1].kind, TypeArgKind::Path { ident, args: Some(inner) } if ident == "Error" && inner.len() == 1 && inner[0] == "()"));
    assert!(matches!(args[2].kind, TypeArgKind::Other));
    assert_eq!(args[2].text, "'a");
    assert!(matches!(args[3].kind, TypeArgKind::Other));

    let func = only_function("fn f() -> Result<T, Error> {}");
    let args = func.output.unwrap().args.unwrap();
    assert!(matches!(&args[0].kind, TypeArgKind::Path { ident, args: None } if ident == "T"));
    assert!(matches!(&args[1].kind, TypeArgKind::Path { ident, args: None } if ident == "Error"));

    let func = only_function("fn f() -> io::Result {}");
    let tail = func.output.unwrap();
    assert_eq!(tail.ident, "Result");
    assert!(tail.args.is_none());

    let func = only_function("fn f() -> Result<u8, Error<dyn Fn(u8) -> u8>> {}");
    let args = func.output.unwrap().args.unwrap();
    assert!(matches!(&args[1].kind, TypeArgKind::Path { args: Some(inner), .. } if inner[0] == "dyn Fn (u8) -> u8"));

    let func = only_function("fn f() -> (Result<u8, Error<E>>) {}");
    assert!(func.output.is_none());
    let func = only_function("fn f() {}");
    assert!(func.output.is_none());
}

#[test]
fn syntax_error_is_reported_with_the_module() {
    let error = parse_api_functions(&vec![
        module("good_api", "pub async fn a(configuration: &C) -> Result<(), Error<E>> {}"),
        module("bad_api", "pub async fn broken( -> {"),
        module("worse_api", "fn ("),
    ])
    .unwrap_err();
    match &error {
        BuildError::Parse { module, message } => {
            assert_eq!(module, "bad_api");
            assert!(!message.is_empty());
            assert_eq!(error.message(), format!("cannot parse module bad_api: {}", message));
        }
        other => panic!("unexpected error {:?}", other),
    }
    assert!(parse_declarations("pub async fn broken( -> {").is_err());
}

#[test]
fn failed_module_leaves_the_counter_alone() {
    let mut seen = SeenFunctions::new();
    assert_eq!(seen.record("get"), 1);
    assert!(parse_module_api_functions("fn (", "bad_api", &mut seen).is_err());
    assert_eq!(seen.record("get"), 2);
    assert_eq!(seen.record("put"), 1);
    assert_eq!(seen.record("get"), 3);
}

#[test]
fn return_types_that_are_no_result_of_error() {
    let cases = [
        "pub async fn f(configuration: &C) {}",
        "pub async fn f(configuration: &C) -> String {}",
        "pub async fn f(configuration: &C) -> Result<String> {}",
        "pub async fn f(configuration: &C) -> Result<String, E, F> {}",
        "pub async fn f(configuration: &C) -> Result<String, CustomError> {}",
        "pub async fn f(configuration: &C) -> Result<String, Error> {}",
        "pub async fn f(configuration: &C) -> Result<String, Wrapper<E>> {}",
        "pub async fn f(configuration: &C) -> Result<'a, Error<E>> {}",
        "pub async fn f(configuration: &C) -> Result<String, &Error<E>> {}",
        "pub async fn f(configuration: &C) -> Option<String, Error<E>> {}",
        "pub async fn f(configuration: &C) -> Result {}",
        "pub async fn f(configuration: &C) -> Result<String, Error<>> {}",
        "pub async fn f(configuration: &C) -> Result<String, Error<A, B>> {}",
        "pub async fn f(configuration: &C) -> std::result::Result<&'a str, apis::Error<E, F>> {}",
        "pub async fn f(configuration: &C) -> Result<String, Error<A, B, C>> {}",
        "pub async fn f(configuration: &C) -> (Result<String, Error<E>>) {}",
    ];
    for code in cases {
        let func = only_function(code);
        assert!(is_valid_api_function(&func), "{}", code);
        assert!(extract_result_types(&func.output).is_none(), "{}", code);
        assert!(parse_function(func, "m").is_none(), "{}", code);
    }
    let func = only_function(
        "pub async fn f(configuration: &C) -> std::result::Result<&'a str, apis::Error<E>> {}",
    );
    let types = extract_result_types(&func.output).unwrap();
    assert_eq!(types.value, "& 'a str");
    assert_eq!(types.error, "E");
    let func = only_function("pub async fn f(configuration: &C) -> Result<u8, Error<'a>> {}");
    assert_eq!(extract_result_types(&func.output).unwrap().error, "'a");
}

#[test]
fn declarations_that_are_no_api_functions() {
    let cases = [
        "async fn f(configuration: &C) -> Result<(), Error<E>> {}",
        "pub(crate) async fn f(configuration: &C) -> Result<(), Error<E>> {}",
        "pub fn f(configuration: &C) -> Result<(), Error<E>> {}",
        "pub async fn f(config: &C) -> Result<(), Error<E>> {}",
        "pub async fn f(Configuration: &C) -> Result<(), Error<E>> {}",
        "pub async fn f((configuration, x): (C, u8)) -> Result<(), Error<E>> {}",
        "pub async fn f() -> Result<(), Error<E>> {}",
        "pub async fn f(r#configuration: &C) -> Result<(), Error<E>> {}",
    ];
    for code in cases {
        let func = only_function(code);
        assert!(!is_valid_api_function(&func), "{}", code);
        assert!(parse_function(func, "m").is_none(), "{}", code);
    }
    let func = only_function("pub async fn f(x: u8, mut configuration: C) -> Result<(), Error<E>> {}");
    assert!(is_valid_api_function(&func));
    let info = parse_function(func, "some_api").unwrap();
    assert_eq!(info.module_name, "some_api");
    assert_eq!(info.function_name, "f");
    assert_eq!(info.parameters.len(), 1);
    assert_eq!(info.parameters[0].name, "x");
    assert_eq!(info.documentation, "");
}

#[test]
fn documentation_is_the_first_doc_string_trimmed() {
    let func = only_function("/// \t first  line \n/// second\nfn f() {}");
    assert_eq!(parse_enum_doc_comment(&func.attrs), "first  line");
    let func = only_function("#[inline]\n/// after another attribute\nfn f() {}");
    assert_eq!(parse_enum_doc_comment(&func.attrs), "after another attribute");
    let func = only_function("#[doc(hidden)]\n/// text\nfn f() {}");
    assert_eq!(parse_enum_doc_comment(&func.attrs), "text");
    let func = only_function("#[doc(hidden)]\n#[doc = \"x\"]\nfn f() {}");
    assert_eq!(parse_enum_doc_comment(&func.attrs), "x");
    let func = only_function("#[doc = 3]\n#[doc]\n#[inline]\n/// text\n/// more\nfn f() {}");
    assert_eq!(parse_enum_doc_comment(&func.attrs), "text");
    let func = only_function("#[doc(hidden)]\n#[doc = 3]\nfn f() {}");
    assert_eq!(parse_enum_doc_comment(&func.attrs), "");
    let func = only_function("#[doc(hidden)]\n#[doc = \"  \"]\n/// later\nfn f() {}");
    assert_eq!(parse_enum_doc_comment(&func.attrs), "");
    let func = only_function("#[derive(Debug)]\nfn f() {}");
    assert_eq!(parse_enum_doc_comment(&func.attrs), "");
    let func = only_function("#[path = \"x\"]\nfn f() {}");
    assert_eq!(parse_enum_doc_comment(&func.attrs), "");
    let func = only_function("#[a::doc = \"x\"]\nfn f() {}");
    assert_eq!(parse_enum_doc_comment(&func.attrs), "");
    let func = only_function("#[doc = r\"  raw \\n \"]\nfn f() {}");
    assert_eq!(parse_enum_doc_comment(&func.attrs), "raw \\n");
    let func = only_function("#[doc = \"\\u{3000}wide\\u{a0}\"]\nfn f() {}");
    assert_eq!(parse_enum_doc_comment(&func.attrs), "wide");
    let attrs = vec![
        AttrDecl { name: Some("allow".to_string()), value: Some("not this".to_string()) },
        AttrDecl { name: None, value: Some("nor this".to_string()) },
        AttrDecl { name: Some("doc".to_string()), value: None },
        AttrDecl { name: Some("doc".to_string()), value: Some("\n this \n".to_string()) },
        AttrDecl { name: Some("doc".to_string()), value: Some("not that".to_string()) },
    ];
    assert_eq!(parse_enum_doc_comment(&attrs), "this");
}

#[test]
fn records_from_declarations_written_by_hand() {
    let func = FnDecl {
        is_public: true,
        is_async: true,
        name: "list".to_string(),
        inputs: vec![
            ArgDecl::Other,
            ArgDecl::Named { name: "page".to_string(), ty: "u32".to_string() },
            ArgDecl::Named { name: "configuration".to_string(), ty: "& C".to_string() },
            ArgDecl::Named { name: "filter".to_string(), ty: "Option < & str >".to_string() },
        ],
        output: Some(TypeTail {
            ident: "Result".to_string(),
            args: Some(vec![
                TypeArg { text: "Vec < u8 >".to_string(), kind: TypeArgKind::Type },
                TypeArg {
                    text: "Error < ListError >".to_string(),
                    kind: TypeArgKind::Path {
                        ident: "Error".to_string(),
                        args: Some(vec!["ListError".to_string()]),
                    },
                },
            ]),
        }),
        attrs: vec![AttrDecl { name: Some("doc".to_string()), value: Some(" Lists. ".to_string()) }],
    };
    let info = parse_function(func, "things_api").unwrap();
    assert_eq!(info.module_name, "things_api");
    assert_eq!(info.function_name, "list");
    assert_eq!(info.declared_name, "list");
    assert_eq!(info.result_types.value, "Vec < u8 >");
    assert_eq!(info.result_types.error, "ListError");
    assert_eq!(info.parameters.len(), 2);
    assert_eq!(info.parameters[0].name, "page");
    assert_eq!(info.parameters[0].ty, "u32");
    assert_eq!(info.parameters[1].name, "filter");
    assert_eq!(info.parameters[1].ty, "Option < & str >");
    assert_eq!(info.documentation, "Lists.");
}

#[test]
fn names_are_numbered_in_the_order_of_processing() {
    let get = "pub async fn get(configuration: &C) -> Result<(), Error<E>> {}";
    let put = "pub async fn put(configuration: &C) -> Result<(), Error<E>> {}";
    let twice = format!("{}\nfn helper() {{}}\n{}\n{}", get, put, get);
    let functions = parse_api_functions(&vec![
        module("zebra_api", get),
        module("apple_api", &twice),
        module("mango_api", get),
    ])
    .unwrap();
    assert_eq!(
        names(&functions),
        vec![
            "apple_api::get_2",
            "apple_api::get_3",
            "apple_api::put",
            "mango_api::get_4",
            "zebra_api::get",
        ]
    );
}

#[test]
fn tenth_and_later_occurrences_get_decimal_numbers() {
    let get = "pub async fn get(configuration: &C) -> Result<(), Error<E>> {}";
    let mut seen = SeenFunctions::new();
    let mut last = String::new();
    for _ in 0..12 {
        let items = parse_declarations(get).unwrap();
        let functions = extract_module_functions(items, "m", &mut seen);
        assert_eq!(functions.len(), 1);
        last = functions[0].function_name.clone();
    }
    assert_eq!(last, "get_12");
    let items = parse_declarations(get).unwrap();
    let functions = extract_module_functions(items, "m", &mut seen);
    assert_eq!(functions[0].function_name, "get_13");
    assert_eq!(functions[0].declared_name, "get");
}

#[test]
fn a_renamed_function_can_meet_a_declared_name() {
    let code = "pub async fn get(configuration: &C) -> Result<(), Error<E>> {}\n\
                pub async fn get(configuration: &C) -> Result<(), Error<E>> {}\n\
                pub async fn get_2(configuration: &C) -> Result<(), Error<E>> {}";
    let functions = parse_api_functions(&vec![module("a", code)]).unwrap();
    assert_eq!(names(&functions), vec!["a::get", "a::get_2", "a::get_2"]);
    let declared: Vec<&str> = functions.iter().map(|f| f.declared_name.as_str()).collect();
    assert_eq!(declared, vec!["get", "get", "get_2"]);
}

#[test]
fn sorting_is_by_module_then_name_and_stable() {
    let code = "pub async fn b(configuration: &C) -> Result<(), Error<E>> {}\n\
                pub async fn a(configuration: &C, first: u8) -> Result<(), Error<E>> {}\n\
                pub async fn B(configuration: &C) -> Result<(), Error<E>> {}\n\
                pub async fn ab(configuration: &C) -> Result<(), Error<E>> {}\n\
                pub async fn \u{e9}(configuration: &C) -> Result<(), Error<E>> {}";
    let functions = parse_api_functions(&vec![
        module("m2", code),
        module("m", code),
        module("m10", code),
        module("M", "pub async fn z(configuration: &C) -> Result<(), Error<E>> {}"),
    ])
    .unwrap();
    assert_eq!(
        names(&functions),
        vec![
            "M::z", "m::B_2", "m::a_2", "m::ab_2", "m::b_2", "m::\u{e9}_2", "m10::B_3",
            "m10::a_3", "m10::ab_3", "m10::b_3", "m10::\u{e9}_3", "m2::B", "m2::a", "m2::ab",
            "m2::b", "m2::\u{e9}",
        ]
    );
}

#[test]
fn extraction_is_repeatable() {
    let code = "/// Docs\npub async fn get(configuration: &C, id: &str) -> Result<Vec<u8>, Error<GetError>> {}";
    let modules = vec![module("b_api", code), module("a_api", code)];
    let first = parse_api_functions(&modules).unwrap();
    let second = parse_api_functions(&modules).unwrap();
    assert_eq!(format!("{:?}", first), format!("{:?}", second));
    assert_eq!(names(&first), vec!["a_api::get_2", "b_api::get"]);
}

#[test]
fn no_modules_give_no_functions() {
    assert!(parse_api_functions(&vec![]).unwrap().is_empty());
    assert!(parse_api_functions(&vec![module("empty", "")]).unwrap().is_empty());
    assert!(parse_declarations("").unwrap().is_empty());
    assert!(parse_declarations("\u{feff}#!/usr/bin/env run\nfn f() {}").unwrap().len() == 1);
}
