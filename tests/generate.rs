use derive_try_from::attrs::{field_verdicts, struct_verdicts, FieldAttrs, StructAttrs};
use derive_try_from::decl::{
    directive, AttrArgs, AttrError, Attribute, Declaration, Directive, FieldDecl, GenError, Shape,
};
use derive_try_from::{derive_try_from, generate_with};
use derive_try_from::ir::{
    declaration_verdicts, source_ident, to_field_definition, to_field_definition_with, FieldPlan,
    Strategy, IR,
};
use derive_try_from::item::Item;
use derive_try_from::utils::{check_arg, invalid_attr_context, parse_attr_or_abort, Grammar};

fn word(key: &str) -> Attribute {
    Attribute { key: Some(key.to_string()), args: AttrArgs::Word }
}

fn list(key: &str, arg: &str) -> Attribute {
    Attribute { key: Some(key.to_string()), args: AttrArgs::List(arg.to_string()) }
}

fn field(name: &str, attrs: Vec<Attribute>) -> FieldDecl {
    FieldDecl { name: Some(name.to_string()), attrs }
}

fn decl(ident: &str, attrs: Vec<Attribute>, fields: Vec<FieldDecl>) -> Declaration {
    Declaration { ident: ident.to_string(), generic_params: 0, shape: Shape::Named, attrs, fields }
}

fn type_attrs() -> Vec<Attribute> {
    vec![list("source", "Source"), list("err", "&'static str")]
}

const HEAD: &str = "#[automatically_derived] impl ::core::convert::TryFrom<&'_ Source> for ";
const MID: &str = " { type Error = &'static str; fn try_from(input: &'_ Source) -> ::core::result::Result<Self, Self::Error> { Ok(Self { ";

fn expected(target: &str, inits: &str) -> String {
    format!("{}{}{}{}}}) }} }}", HEAD, target, MID, inits)
}

#[test]
fn expression_field_routine() {
    let d = decl("Sum", type_attrs(), vec![field("value", vec![list("expr", "input.x + input.y")])]);
    assert_eq!(derive_try_from(d).unwrap(), expected("Sum", "value: input.x + input.y, "));
}

#[test]
fn example_target_routine() {
    let d = decl(
        "Target",
        type_attrs(),
        vec![field("sum", vec![]), field("meta", vec![]), field("is_dirty", vec![word("default")])],
    );
    assert_eq!(
        derive_try_from(d).unwrap(),
        expected(
            "Target",
            "sum: input.try_into()?, meta: input.try_into()?, is_dirty: Default::default(), "
        )
    );
}

#[test]
fn unit_struct_routine() {
    let mut d = decl("Marker", type_attrs(), vec![]);
    d.shape = Shape::Unit;
    assert_eq!(derive_try_from(d).unwrap(), expected("Marker", ""));
}

#[test]
fn generation_is_repeatable() {
    let d = decl("Target", type_attrs(), vec![field("a", vec![]), field("b", vec![word("default")])]);
    let first = derive_try_from(d.clone()).unwrap();
    let second = derive_try_from(d).unwrap();
    assert_eq!(first, second);
}

#[test]
fn field_order_is_kept() {
    let d = decl("T", type_attrs(), vec![field("z", vec![]), field("a", vec![]), field("m", vec![])]);
    let text = derive_try_from(d).unwrap();
    let z = text.find("z: ").unwrap();
    let a = text.find("a: ").unwrap();
    let m = text.find("m: ").unwrap();
    assert!(z < a && a < m);
}

#[test]
fn generic_target_rejected() {
    let mut d = decl("T", type_attrs(), vec![]);
    d.generic_params = 1;
    assert_eq!(derive_try_from(d), Err(GenError::GenericTarget));
}

#[test]
fn enum_and_union_rejected() {
    for shape in [Shape::Enum, Shape::Union, Shape::Tuple] {
        let mut d = decl("T", type_attrs(), vec![]);
        d.shape = shape;
        assert_eq!(derive_try_from(d), Err(GenError::UnsupportedShape));
    }
}

#[test]
fn positional_field_rejected() {
    let d = decl("T", type_attrs(), vec![FieldDecl { name: None, attrs: vec![] }]);
    assert_eq!(derive_try_from(d), Err(GenError::UnsupportedShape));
}

#[test]
fn missing_source_rejected() {
    let d = decl("T", vec![list("err", "E")], vec![]);
    assert_eq!(derive_try_from(d), Err(GenError::Struct(AttrError::MissingSource)));
}

#[test]
fn missing_err_rejected() {
    let d = decl("T", vec![list("source", "S")], vec![]);
    assert_eq!(derive_try_from(d), Err(GenError::Struct(AttrError::MissingErr)));
}

#[test]
fn duplicate_source_rejected() {
    let d = decl("T", vec![list("source", "S"), list("err", "E"), list("source", "R")], vec![]);
    assert_eq!(derive_try_from(d), Err(GenError::Struct(AttrError::Duplicate(2))));
}

#[test]
fn unknown_key_rejected() {
    let d = decl("T", vec![list("source", "S"), word("serde"), list("err", "E")], vec![]);
    assert_eq!(derive_try_from(d), Err(GenError::Struct(AttrError::UnknownKey(1))));
    let path = Attribute { key: None, args: AttrArgs::Word };
    let d = decl("T", type_attrs(), vec![field("a", vec![path])]);
    assert_eq!(derive_try_from(d), Err(GenError::Field(0, AttrError::UnknownKey(0))));
}

#[test]
fn source_on_field_rejected() {
    let d = decl("MyStruct", type_attrs(), vec![field("field", vec![list("source", "OtherSource")])]);
    assert_eq!(derive_try_from(d), Err(GenError::Field(0, AttrError::WrongContext(0))));
    let d = decl("MyStruct", type_attrs(), vec![field("a", vec![]), field("b", vec![list("err", "E")])]);
    assert_eq!(derive_try_from(d), Err(GenError::Field(1, AttrError::WrongContext(0))));
}

#[test]
fn field_directive_on_type_rejected() {
    let mut attrs = type_attrs();
    attrs.push(word("default"));
    let d = decl("T", attrs, vec![]);
    assert_eq!(derive_try_from(d), Err(GenError::Struct(AttrError::WrongContext(2))));
    let d = decl("T", vec![list("expr", "1"), list("source", "S"), list("err", "E")], vec![]);
    assert_eq!(derive_try_from(d), Err(GenError::Struct(AttrError::WrongContext(0))));
}

#[test]
fn default_and_expr_rejected() {
    let d = decl(
        "MyStruct",
        vec![list("source", "SourceStruct"), list("err", "syn::Error")],
        vec![
            field("number", vec![list("expr", "1")]),
            field("text", vec![word("default"), list("expr", "\"Hello\".to_string()")]),
        ],
    );
    assert_eq!(derive_try_from(d), Err(GenError::Field(1, AttrError::ExclusiveDirectives)));
}

#[test]
fn invalid_type_argument_rejected() {
    let d = decl("T", vec![list("source", "1 +"), list("err", "E")], vec![]);
    assert_eq!(derive_try_from(d), Err(GenError::Struct(AttrError::InvalidArgument(0))));
    let d = decl("T", vec![word("source"), list("err", "E")], vec![]);
    assert_eq!(derive_try_from(d), Err(GenError::Struct(AttrError::InvalidArgument(0))));
}

#[test]
fn invalid_expression_argument_rejected() {
    let d = decl("T", type_attrs(), vec![field("a", vec![list("expr", "let = ;")])]);
    assert_eq!(derive_try_from(d), Err(GenError::Field(0, AttrError::InvalidArgument(0))));
}

#[test]
fn default_with_argument_rejected() {
    let d = decl("T", type_attrs(), vec![field("a", vec![list("default", "3")])]);
    assert_eq!(derive_try_from(d), Err(GenError::Field(0, AttrError::InvalidArgument(0))));
}

#[test]
fn first_error_in_field_order_reported() {
    let d = decl(
        "T",
        type_attrs(),
        vec![field("a", vec![]), field("b", vec![word("bogus")]), field("c", vec![list("source", "S")])],
    );
    assert_eq!(derive_try_from(d), Err(GenError::Field(1, AttrError::UnknownKey(0))));
}

#[test]
fn struct_attrs_parsed() {
    let sa = StructAttrs::parse(&vec![list("err", "MyError"), list("source", "crate::Src")]).unwrap();
    assert_eq!(sa.source(), "crate::Src");
    assert_eq!(sa.error(), "MyError");
}

#[test]
fn field_attrs_parsed() {
    let fa = FieldAttrs::parse(&vec![word("default")]).unwrap();
    assert!(fa.default());
    assert_eq!(fa.expr(), None);
    let fa = FieldAttrs::parse(&vec![list("expr", "1"), list("expr", "2 * x")]).unwrap();
    assert!(!fa.default());
    assert_eq!(fa.expr().map(|s| s.as_str()), Some("2 * x"));
    let fa = FieldAttrs::parse(&vec![]).unwrap();
    assert!(!fa.default());
    assert_eq!(fa.expr(), None);
}

#[test]
fn directives_recognised() {
    assert_eq!(directive(&word("source")), Some(Directive::Source));
    assert_eq!(directive(&word("err")), Some(Directive::Error));
    assert_eq!(directive(&word("default")), Some(Directive::Default));
    assert_eq!(directive(&word("expr")), Some(Directive::Expr));
    assert_eq!(directive(&word("Source")), None);
}

#[test]
fn attribute_argument_checked() {
    assert_eq!(parse_attr_or_abort(&list("source", "Vec<u8>"), Grammar::Type, 4), Ok("Vec<u8>".to_string()));
    assert_eq!(parse_attr_or_abort(&list("source", "a + +"), Grammar::Type, 4), Err(AttrError::InvalidArgument(4)));
    assert_eq!(parse_attr_or_abort(&list("expr", "a.b(1)"), Grammar::Expr, 0), Ok("a.b(1)".to_string()));
    let nv = Attribute { key: Some("expr".to_string()), args: AttrArgs::NameValue("1".to_string()) };
    assert_eq!(parse_attr_or_abort(&nv, Grammar::Expr, 2), Err(AttrError::InvalidArgument(2)));
    assert_eq!(invalid_attr_context(3), AttrError::WrongContext(3));
}

#[test]
fn ir_accessors() {
    let d = decl("Target", type_attrs(), vec![field("a", vec![list("expr", "7")]), field("b", vec![])]);
    let ir = IR::new(d);
    assert_eq!(ir.target_ident(), "Target");
    assert!(!ir.is_generic());
    assert_eq!(ir.validate(), Ok(()));
    assert_eq!(ir.source(), Ok("Source".to_string()));
    assert_eq!(ir.error(), Ok("&'static str".to_string()));
    assert_eq!(ir.source_ident(), "input");
    assert!(ir.struct_attrs().is_ok());
    assert_eq!(
        ir.fields().unwrap(),
        vec![
            FieldPlan { name: "a".to_string(), strategy: Strategy::UseExpression("7".to_string()) },
            FieldPlan { name: "b".to_string(), strategy: Strategy::RecursiveConvert },
        ]
    );
    let item = Item::from_ir(&ir).unwrap();
    assert_eq!(item.render(), expected("Target", "a: 7, b: input.try_into()?, "));
}

#[test]
fn field_definitions_resolved() {
    let p = to_field_definition(&field("x", vec![word("default")]), 0).unwrap();
    assert_eq!(p.strategy, Strategy::UseDefault);
    let p = to_field_definition(&field("x", vec![]), 0).unwrap();
    assert_eq!(p.strategy, Strategy::RecursiveConvert);
    let r = to_field_definition(&field("x", vec![word("default"), list("expr", "0")]), 5);
    assert_eq!(r, Err(GenError::Field(5, AttrError::ExclusiveDirectives)));
    assert_eq!(source_ident(), "input");
}

#[test]
fn argument_verdict_applied() {
    let list = AttrArgs::List("Vec<u8>".to_string());
    assert_eq!(check_arg(&list, true, 1), Ok("Vec<u8>".to_string()));
    assert_eq!(check_arg(&list, false, 1), Err(AttrError::InvalidArgument(1)));
    assert_eq!(check_arg(&AttrArgs::Word, true, 2), Err(AttrError::InvalidArgument(2)));
    let nv = AttrArgs::NameValue("u8".to_string());
    assert_eq!(check_arg(&nv, true, 0), Err(AttrError::InvalidArgument(0)));
}

#[test]
fn struct_attrs_follow_given_verdicts() {
    let attrs = vec![list("source", "S"), list("err", "E")];
    let sa = StructAttrs::parse_with(&attrs, &vec![true, true]).unwrap();
    assert_eq!(sa.source(), "S");
    assert_eq!(sa.error(), "E");
    assert_eq!(
        StructAttrs::parse_with(&attrs, &vec![true, false]).err(),
        Some(AttrError::InvalidArgument(1))
    );
    assert_eq!(
        StructAttrs::parse_with(&vec![list("err", "E")], &vec![true]).err(),
        Some(AttrError::MissingSource)
    );
}

#[test]
fn field_attrs_follow_given_verdicts() {
    let attrs = vec![list("expr", "input.x + input.y")];
    let fa = FieldAttrs::parse_with(&attrs, &vec![true]).unwrap();
    assert_eq!(fa.expr().map(|s| s.as_str()), Some("input.x + input.y"));
    assert_eq!(FieldAttrs::parse_with(&attrs, &vec![false]).err(), Some(AttrError::InvalidArgument(0)));
    let both = vec![word("default"), list("expr", "\"Hello\".to_string()")];
    assert_eq!(
        FieldAttrs::parse_with(&both, &vec![false, true]).err(),
        Some(AttrError::ExclusiveDirectives)
    );
}

#[test]
fn verdicts_collected_from_syn() {
    let attrs = vec![list("source", "Vec<u8>"), list("err", "1 +"), word("default"), list("expr", "1")];
    assert_eq!(struct_verdicts(&attrs), vec![true, false, false, false]);
    assert_eq!(field_verdicts(&attrs), vec![false, false, false, true]);
    let d = decl("T", type_attrs(), vec![field("a", vec![list("expr", "let = ;")]), field("b", vec![])]);
    let (sv, fv) = declaration_verdicts(&d);
    assert_eq!(sv, vec![true, true]);
    assert_eq!(fv, vec![vec![false], vec![]]);
}

#[test]
fn field_plan_follows_given_verdicts() {
    let f = field("value", vec![list("expr", "input.x + input.y")]);
    let p = to_field_definition_with(&f, 0, &vec![true]).unwrap();
    assert_eq!(p.strategy, Strategy::UseExpression("input.x + input.y".to_string()));
    assert_eq!(
        to_field_definition_with(&f, 3, &vec![false]),
        Err(GenError::Field(3, AttrError::InvalidArgument(0)))
    );
}

#[test]
fn generation_follows_given_verdicts() {
    let d = decl("Sum", type_attrs(), vec![field("value", vec![list("expr", "input.x + input.y")])]);
    let ir = IR::new(d.clone());
    let item = Item::from_ir_with(&ir, &vec![true, true], &vec![vec![true]]).unwrap();
    assert_eq!(item.render(), expected("Sum", "value: input.x + input.y, "));
    assert_eq!(
        ir.fields_with(&vec![vec![false]]),
        Err(GenError::Field(0, AttrError::InvalidArgument(0)))
    );
    assert_eq!(
        generate_with(d.clone(), &vec![true, true], &vec![vec![true]]).unwrap(),
        expected("Sum", "value: input.x + input.y, ")
    );
    assert_eq!(
        generate_with(d, &vec![false, true], &vec![vec![true]]),
        Err(GenError::Struct(AttrError::InvalidArgument(0)))
    );
}
