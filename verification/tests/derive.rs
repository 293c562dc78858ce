use kaze::merge_derive::{
    field_plan, merge_plan, parse_arg_items, ArgAttr, ArgAttrError, ArgItem, ArgKey, ArgValue,
    CommandItem, DefaultExpr, DeriveError, FieldAttr, FieldDefault, FieldId, FieldMerge,
    FieldPlan, FieldSpec, MergeInput, MergeOption,
};
use kaze::toml_derive::{
    doc_comment, documented_field_code, documented_fields, serde_with_module, DocArms,
    DocDeriveError, DocFieldInput, DocFieldSpec, DocShape, FieldCode, FieldSource, SerdeAttr,
    SerdeItem, TypeKind,
};

fn assign(key: ArgKey, expr: usize) -> ArgItem {
    ArgItem::Assign { key, value: ArgValue::Other { expr } }
}

#[test]
fn arg_items_in_order() {
    let items = vec![
        ArgItem::Assign { key: ArgKey::Id, value: ArgValue::StrLit { expr: 0 } },
        assign(ArgKey::ValueParser, 1),
        assign(ArgKey::DefaultValue, 2),
        ArgItem::Skip,
    ];
    assert_eq!(
        parse_arg_items(&items),
        Ok(ArgAttr { id: Some(0), skip: true, default: Some(DefaultExpr::Parsed { parser: 1, value: 2 }) })
    );
    let items = vec![assign(ArgKey::DefaultMissingValue, 5), assign(ArgKey::ValueParser, 6)];
    assert_eq!(
        parse_arg_items(&items),
        Ok(ArgAttr { id: None, skip: false, default: Some(DefaultExpr::Into { expr: 5 }) })
    );
    let items = vec![assign(ArgKey::DefaultValueT, 3), ArgItem::Other, assign(ArgKey::Other, 4)];
    assert_eq!(
        parse_arg_items(&items),
        Ok(ArgAttr { id: None, skip: false, default: Some(DefaultExpr::Value { expr: 3 }) })
    );
    let items = vec![ArgItem::Skip, assign(ArgKey::Id, 7), assign(ArgKey::Id, 8)];
    assert_eq!(parse_arg_items(&items), Err(ArgAttrError::IdNotStringLiteral { expr: 7 }));
}

#[test]
fn field_plans_follow_their_attributes() {
    let plain = FieldSpec { is_option: false, attrs: vec![FieldAttr::Other] };
    assert_eq!(
        field_plan(&plain),
        Ok(FieldPlan { default: FieldDefault::TypeDefault, merge: FieldMerge::Skip })
    );
    let arg = FieldSpec {
        is_option: true,
        attrs: vec![FieldAttr::Arg(vec![
            ArgItem::Assign { key: ArgKey::Id, value: ArgValue::StrLit { expr: 9 } },
            assign(ArgKey::DefaultValueT, 1),
        ])],
    };
    assert_eq!(
        field_plan(&arg),
        Ok(FieldPlan {
            default: FieldDefault::SomeOf(DefaultExpr::Value { expr: 1 }),
            merge: FieldMerge::OptionValue { id: FieldId::Literal { expr: 9 } },
        })
    );
    let value = FieldSpec { is_option: false, attrs: vec![FieldAttr::Arg(vec![])] };
    assert_eq!(
        field_plan(&value),
        Ok(FieldPlan { default: FieldDefault::TypeDefault, merge: FieldMerge::Value { id: FieldId::Name } })
    );
    let flat = FieldSpec {
        is_option: false,
        attrs: vec![FieldAttr::Command(vec![CommandItem::Other, CommandItem::Flatten])],
    };
    assert_eq!(field_plan(&flat).unwrap().merge, FieldMerge::Recursive);
    let sub = FieldSpec { is_option: false, attrs: vec![FieldAttr::Subcommand, FieldAttr::Arg(vec![ArgItem::Skip])] };
    assert_eq!(field_plan(&sub).unwrap().merge, FieldMerge::Skip);
}

#[test]
fn a_later_arg_keeps_the_earlier_default() {
    let field = FieldSpec {
        is_option: false,
        attrs: vec![
            FieldAttr::Arg(vec![ArgItem::Other, assign(ArgKey::DefaultValueT, 5)]),
            FieldAttr::Arg(vec![assign(ArgKey::Other, 6)]),
        ],
    };
    assert_eq!(
        field_plan(&field),
        Ok(FieldPlan {
            default: FieldDefault::Given(DefaultExpr::Value { expr: 5 }),
            merge: FieldMerge::Value { id: FieldId::Name },
        })
    );
}

#[test]
fn merge_plan_of_a_struct() {
    let input = MergeInput { options: None, fields: None };
    assert!(matches!(merge_plan(&input), Err(DeriveError::NotNamedStruct)));
    let input = MergeInput {
        options: Some(vec![MergeOption::Other, MergeOption::NoDefault]),
        fields: Some(vec![
            FieldSpec { is_option: false, attrs: vec![FieldAttr::Arg(vec![])] },
            FieldSpec { is_option: true, attrs: vec![] },
        ]),
    };
    let plan = merge_plan(&input).unwrap();
    assert!(!plan.create_default);
    assert_eq!(plan.fields.len(), 2);
    assert_eq!(plan.fields[0].merge, FieldMerge::Value { id: FieldId::Name });
    assert_eq!(plan.fields[1].merge, FieldMerge::Skip);
    let input = MergeInput {
        options: None,
        fields: Some(vec![FieldSpec { is_option: false, attrs: vec![FieldAttr::Arg(vec![assign(ArgKey::Id, 4)])] }]),
    };
    assert!(matches!(merge_plan(&input), Err(DeriveError::IdNotStringLiteral { expr: 4 })));
    let input = MergeInput { options: Some(vec![]), fields: Some(vec![]) };
    assert!(merge_plan(&input).unwrap().create_default);
}

#[test]
fn doc_comments_are_trimmed_and_joined() {
    let attrs = vec![Some(" The name ".to_string()), None, Some("  of the server".to_string())];
    assert_eq!(doc_comment(&attrs), Some("The name\nof the server".to_string()));
    assert_eq!(doc_comment(&vec![None, None]), None);
    assert_eq!(doc_comment(&vec![Some("   ".to_string())]), Some(String::new()));
}

#[test]
fn serde_with_takes_the_first_module() {
    let attrs = vec![
        SerdeAttr::Other,
        SerdeAttr::Serde(None),
        SerdeAttr::Serde(Some(vec![SerdeItem::Other, SerdeItem::With(None)])),
        SerdeAttr::Serde(Some(vec![SerdeItem::With(Some(3)), SerdeItem::With(Some(4))])),
    ];
    assert_eq!(serde_with_module(&attrs), Some(3));
    assert_eq!(serde_with_module(&vec![SerdeAttr::Other]), None);
}

#[test]
fn field_code_by_type_and_doc() {
    let all = Some(DocArms { array: true, table: true, value: true });
    let spec = |kind, has_doc, serde_with| DocFieldSpec { kind, has_doc, serde_with };
    assert_eq!(
        documented_field_code(&spec(TypeKind::Option, true, None)),
        FieldCode { source: FieldSource::IfSome, arms: all }
    );
    assert_eq!(
        documented_field_code(&spec(TypeKind::Vec, true, None)),
        FieldCode { source: FieldSource::Direct, arms: Some(DocArms { array: true, table: false, value: true }) }
    );
    assert_eq!(
        documented_field_code(&spec(TypeKind::Other, false, None)),
        FieldCode { source: FieldSource::Direct, arms: None }
    );
    assert_eq!(
        documented_field_code(&spec(TypeKind::Option, true, Some(2))),
        FieldCode {
            source: FieldSource::SerdeWith { module: 2 },
            arms: Some(DocArms { array: false, table: false, value: true }),
        }
    );
}

#[test]
fn documented_fields_of_a_struct() {
    assert_eq!(documented_fields(&DocShape::Unnamed), Err(DocDeriveError::NotNamedFields));
    assert_eq!(documented_fields(&DocShape::NotStruct), Err(DocDeriveError::NotStruct));
    let shape = DocShape::Named(vec![
        DocFieldInput { kind: TypeKind::Vec, doc_attrs: vec![Some("List".to_string())], serde_attrs: vec![] },
        DocFieldInput { kind: TypeKind::Other, doc_attrs: vec![None], serde_attrs: vec![] },
    ]);
    let codes = documented_fields(&shape).unwrap();
    assert_eq!(codes.len(), 2);
    assert_eq!(codes[0].arms, Some(DocArms { array: true, table: false, value: true }));
    assert_eq!(codes[1], FieldCode { source: FieldSource::Direct, arms: None });
}
