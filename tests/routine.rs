use derive_try_from::decl::{AttrArgs, Attribute, Declaration, FieldDecl, Shape};
use derive_try_from::derive_try_from;
use std::cell::Cell;

// The conversions below are written as the engine emits them for the
// declarations built in each test; every test first checks that text.

struct Source {
    x: u32,
    y: u32,
    name: String,
    description: String,
}

#[derive(Debug)]
struct Sum {
    value: u32,
}

#[derive(Debug)]
struct Metadata {
    text: String,
}

#[derive(Debug)]
struct Target {
    sum: Sum,
    meta: Metadata,
    is_dirty: bool,
}

impl ::core::convert::TryFrom<&'_ Source> for Sum {
    type Error = &'static str;
    fn try_from(input: &'_ Source) -> ::core::result::Result<Self, Self::Error> {
        Ok(Self { value: input.x + input.y, })
    }
}

impl TryFrom<&'_ Source> for Metadata {
    type Error = &'static str;

    fn try_from(value: &'_ Source) -> Result<Self, Self::Error> {
        let text = format!("{}\n {}", &value.name, &value.description);
        if text.len() > 20 {
            return Err("The metadata is too long. It should have at most 20 characters");
        }
        Ok(Self { text })
    }
}

impl ::core::convert::TryFrom<&'_ Source> for Target {
    type Error = &'static str;
    fn try_from(input: &'_ Source) -> ::core::result::Result<Self, Self::Error> {
        Ok(Self { sum: input.try_into()?, meta: input.try_into()?, is_dirty: Default::default(), })
    }
}

fn attr(key: &str, args: AttrArgs) -> Attribute {
    Attribute { key: Some(key.to_string()), args }
}

fn target_decl(ident: &str, fields: Vec<FieldDecl>) -> Declaration {
    Declaration {
        ident: ident.to_string(),
        generic_params: 0,
        shape: Shape::Named,
        attrs: vec![
            attr("source", AttrArgs::List("Source".to_string())),
            attr("err", AttrArgs::List("&'static str".to_string())),
        ],
        fields,
    }
}

fn plain(name: &str) -> FieldDecl {
    FieldDecl { name: Some(name.to_string()), attrs: vec![] }
}

fn source(description: &str) -> Source {
    Source { x: 10, y: 5, name: "My name".to_string(), description: description.to_string() }
}

fn routine_of(d: Declaration) -> String {
    derive_try_from(d).unwrap()
}

#[test]
fn example_conversion_succeeds() {
    let target = routine_of(target_decl(
        "Target",
        vec![
            plain("sum"),
            plain("meta"),
            FieldDecl { name: Some("is_dirty".to_string()), attrs: vec![attr("default", AttrArgs::Word)] },
        ],
    ));
    assert!(target.contains(
        "Ok(Self { sum: input.try_into()?, meta: input.try_into()?, is_dirty: Default::default(), })"
    ));
    let sum = routine_of(target_decl(
        "Sum",
        vec![FieldDecl {
            name: Some("value".to_string()),
            attrs: vec![attr("expr", AttrArgs::List("input.x + input.y".to_string()))],
        }],
    ));
    assert!(sum.contains("Ok(Self { value: input.x + input.y, })"));

    let t = Target::try_from(&source("Some text")).unwrap();
    assert_eq!(t.sum.value, 15);
    assert_eq!(t.meta.text, "My name\n Some text");
    assert!(!t.is_dirty);
}

#[test]
fn example_conversion_fails_on_long_text() {
    let r = Target::try_from(&source("Some text making the metadata too long"));
    assert_eq!(r.unwrap_err(), "The metadata is too long. It should have at most 20 characters");
}

#[test]
fn default_and_expression_fields_ignore_source() {
    let mut s = source("abc");
    s.x = 1;
    s.y = 2;
    let t = Target::try_from(&s).unwrap();
    assert!(!t.is_dirty);
    assert_eq!(t.sum.value, 3);
}

// Short-circuit: the second field's conversion must not run once the first fails.

struct Counted<'a> {
    fail_first: bool,
    second_calls: &'a Cell<u32>,
}

#[derive(Debug)]
struct First;

#[derive(Debug)]
struct Second;

#[derive(Debug)]
struct Pair {
    sum: First,
    meta: Second,
}

impl<'a> TryFrom<&'_ Counted<'a>> for First {
    type Error = &'static str;
    fn try_from(c: &'_ Counted<'a>) -> Result<Self, Self::Error> {
        if c.fail_first {
            Err("first failed")
        } else {
            Ok(First)
        }
    }
}

impl<'a> TryFrom<&'_ Counted<'a>> for Second {
    type Error = &'static str;
    fn try_from(c: &'_ Counted<'a>) -> Result<Self, Self::Error> {
        c.second_calls.set(c.second_calls.get() + 1);
        Ok(Second)
    }
}

impl<'a> ::core::convert::TryFrom<&'_ Counted<'a>> for Pair {
    type Error = &'static str;
    fn try_from(input: &'_ Counted<'a>) -> ::core::result::Result<Self, Self::Error> {
        Ok(Self { sum: input.try_into()?, meta: input.try_into()?, })
    }
}

#[test]
fn failing_conversion_stops_later_fields() {
    let pair = routine_of(target_decl("Pair", vec![plain("sum"), plain("meta")]));
    assert!(pair.contains("Ok(Self { sum: input.try_into()?, meta: input.try_into()?, })"));

    let calls = Cell::new(0);
    let r = Pair::try_from(&Counted { fail_first: true, second_calls: &calls });
    assert_eq!(r.unwrap_err(), "first failed");
    assert_eq!(calls.get(), 0);

    let r = Pair::try_from(&Counted { fail_first: false, second_calls: &calls });
    assert!(r.is_ok());
    assert_eq!(calls.get(), 1);
}
