use rusty_lamp::generator::ident_style::IdentStyle;

#[test]
fn test_first_upper() {
    let token = String::from("fooBar");

    let result = IdentStyle::first_upper(token);
    println!("First Upper: {}", result);
    assert_eq!(result, "FooBar");
}

#[test]
fn test_infer() {
    let ident_style = IdentStyle::new();

    let infer = IdentStyle::infer(&ident_style.styles, "foo_bar".into());
    match infer {
        Some(i) => {
            let converted = i.convert("my_record".into());
            println!("{}", converted);
            assert_eq!(converted, "my_record");
        }
        None => {
            println!("None...");
            assert!(false, "foo_bar names a style");
        }
    }
}

use rusty_lamp::generator::ident_style::{CaseStyle, IdentConverter, IdentStyleDefault};

#[test]
fn first_upper_changes_the_first_character_only() {
    assert_eq!(IdentStyle::first_upper("".into()), "");
    assert_eq!(IdentStyle::first_upper("a".into()), "A");
    assert_eq!(IdentStyle::first_upper("already".into()), "Already");
    assert_eq!(IdentStyle::first_upper("Upper".into()), "Upper");
    assert_eq!(IdentStyle::first_upper("_x".into()), "_x");
    assert_eq!(IdentStyle::first_upper("ßa".into()), "SSa");
}

#[test]
fn each_style_writes_the_words_in_its_way() {
    assert_eq!(IdentStyle::camel_upper("foo_bar".into()), "FooBar");
    assert_eq!(IdentStyle::camel_lower("foo_bar".into()), "fooBar");
    assert_eq!(IdentStyle::under_lower("foo_bar".into()), "foo_bar");
    assert_eq!(IdentStyle::under_upper("foo_bar".into()), "Foo_Bar");
    assert_eq!(IdentStyle::under_caps("foo_bar".into()), "FOO_BAR");
    assert_eq!(IdentStyle::camel_upper("one_two_three".into()), "OneTwoThree");
    assert_eq!(IdentStyle::camel_lower("one_two_three".into()), "oneTwoThree");
    assert_eq!(IdentStyle::under_upper("one_two_three".into()), "One_Two_Three");
}

#[test]
fn empty_words_stay_empty() {
    assert_eq!(IdentStyle::camel_upper("".into()), "");
    assert_eq!(IdentStyle::camel_lower("".into()), "");
    assert_eq!(IdentStyle::under_upper("".into()), "");
    assert_eq!(IdentStyle::under_caps("".into()), "");
    assert_eq!(IdentStyle::camel_upper("_a__b_".into()), "AB");
    assert_eq!(IdentStyle::camel_lower("_a__b_".into()), "AB");
    assert_eq!(IdentStyle::under_upper("_a__b_".into()), "_A__B_");
    assert_eq!(IdentStyle::under_upper("_".into()), "_");
}

#[test]
fn a_prefix_stands_before_the_styled_name() {
    let plain = IdentConverter::of(CaseStyle::CamelUpper);
    assert_eq!(plain.convert("my_type".into()), "MyType");
    let prefixed = IdentStyle::prefix("NS".into(), plain.clone());
    assert_eq!(prefixed.convert("my_type".into()), "NSMyType");
    let twice = IdentStyle::prefix("X".into(), prefixed);
    assert_eq!(twice.convert("my_type".into()), "XNSMyType");
    assert_eq!(twice.style, CaseStyle::CamelUpper);
    assert_eq!(twice.prefix, "XNS");
}

#[test]
fn infer_takes_the_style_that_the_text_ends_with() {
    let styles = IdentStyle::new().styles;
    let names: Vec<&str> = styles.iter().map(|s| s.0.as_str()).collect();
    assert_eq!(names, vec!["FooBar", "fooBar", "foo_bar", "Foo_Bar", "FOO_BAR"]);
    let cases = vec![
        ("FooBar", "", CaseStyle::CamelUpper, "MyRecord"),
        ("fooBar", "", CaseStyle::CamelLower, "myRecord"),
        ("foo_bar", "", CaseStyle::UnderLower, "my_record"),
        ("Foo_Bar", "", CaseStyle::UnderUpper, "My_Record"),
        ("FOO_BAR", "", CaseStyle::UnderCaps, "MY_RECORD"),
        ("mFooBar", "m", CaseStyle::CamelUpper, "mMyRecord"),
        ("k_foo_bar", "k_", CaseStyle::UnderLower, "k_my_record"),
    ];
    for (text, prefix, style, converted) in cases {
        let converter = IdentStyle::infer(&styles, text.into()).unwrap();
        assert_eq!(converter.prefix, prefix);
        assert_eq!(converter.style, style);
        assert_eq!(converter.convert("my_record".into()), converted);
        let built = IdentStyle::build_ident_style(text).unwrap();
        assert_eq!(built.convert("my_record".into()), converted);
    }
    assert!(IdentStyle::infer(&styles, "foobar".into()).is_none());
    assert!(IdentStyle::infer(&styles, "".into()).is_none());
    assert!(IdentStyle::infer(&styles, "FooBarx".into()).is_none());
    assert!(IdentStyle::build_ident_style("oo_bar").is_none());
    assert!(IdentStyle::infer(&Vec::new(), "FooBar".into()).is_none());
}

#[test]
fn the_first_of_two_fitting_styles_is_taken() {
    let styles = vec![
        ("Bar".to_string(), IdentConverter::of(CaseStyle::UnderCaps)),
        ("FooBar".to_string(), IdentConverter::of(CaseStyle::CamelUpper)),
    ];
    let converter = IdentStyle::infer(&styles, "FooBar".into()).unwrap();
    assert_eq!(converter.prefix, "Foo");
    assert_eq!(converter.style, CaseStyle::UnderCaps);
}

#[test]
fn the_default_styles_differ_in_their_constants() {
    let style = IdentStyle::new();
    assert_eq!(style.cpp_style_default.ty.convert("my_type".into()), "MyType");
    assert_eq!(style.cpp_style_default.method.convert("my_method".into()), "myMethod");
    assert_eq!(style.cpp_style_default.enm.convert("my_option".into()), "MY_OPTION");
    assert_eq!(style.java_style_default.cnst.convert("my_const".into()), "MY_CONST");
    assert_eq!(style.objc_style_default.enm.convert("my_option".into()), "MyOption");
    assert_eq!(style.objc_style_default.field.convert("my_field".into()), "myField");
    let custom = IdentStyleDefault::new(
        IdentConverter::of(CaseStyle::UnderLower),
        IdentConverter::of(CaseStyle::CamelUpper),
        IdentConverter::of(CaseStyle::CamelUpper),
        IdentConverter::of(CaseStyle::CamelLower),
        IdentConverter::of(CaseStyle::CamelLower),
        IdentConverter::of(CaseStyle::CamelLower),
        IdentConverter::of(CaseStyle::UnderCaps),
        IdentConverter::of(CaseStyle::UnderUpper),
    );
    assert_eq!(custom.ty.convert("a_b".into()), "a_b");
    assert_eq!(custom.cnst.convert("a_b".into()), "A_B");
}
