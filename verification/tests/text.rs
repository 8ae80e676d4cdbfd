use menu_lowering::util::to_kebab_case;

#[test]
fn kebab_case_of_pascal_case() {
    assert_eq!(to_kebab_case("FooBar"), "foo-bar");
    assert_eq!(to_kebab_case("TextHorizontalAlignment"), "text-horizontal-alignment");
}

#[test]
fn kebab_case_of_empty_text() {
    assert_eq!(to_kebab_case(""), "");
}

#[test]
fn kebab_case_puts_no_hyphen_first() {
    assert_eq!(to_kebab_case("A"), "a");
    assert_eq!(to_kebab_case("Z"), "z");
    assert_eq!(to_kebab_case("ABC"), "a-b-c");
}

#[test]
fn kebab_case_of_camel_case() {
    assert_eq!(to_kebab_case("fooBar"), "foo-bar");
    assert_eq!(to_kebab_case("x1Y2"), "x1-y2");
}

#[test]
fn kebab_case_keeps_other_characters() {
    assert_eq!(to_kebab_case("already-kebab_case 12"), "already-kebab_case 12");
    assert_eq!(to_kebab_case("@[`{"), "@[`{");
    assert_eq!(to_kebab_case("\u{c9}coleX"), "\u{c9}cole-x");
}
