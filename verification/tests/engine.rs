use cfn_ir::driver::translates_resources;
use cfn_ir::ir::ResourceIr;
use cfn_ir::reference::{Origin, PseudoParameter, Reference};
use cfn_ir::specification::{Complexity, PropertyRule, Specification, TypeRule};
use cfn_ir::sub::{sub_parse_tree, SubValue};
use cfn_ir::translate::{find_ref, translate_resource, ResourceTranslationInputs};
use cfn_ir::values::{CloudformationParseTree, ResourceParseTree, ResourceValue};

fn s(x: &str) -> String {
    x.to_string()
}

fn empty_tree() -> CloudformationParseTree {
    CloudformationParseTree { resources: vec![], parameters: vec![] }
}

fn empty_spec() -> Specification {
    Specification { resource_types: vec![], property_types: vec![] }
}

fn simple_ctx<'t>(
    tree: &'t CloudformationParseTree,
    spec: &'t Specification,
) -> ResourceTranslationInputs<'t> {
    ResourceTranslationInputs {
        parse_tree: tree,
        specification: spec,
        complexity: Complexity::Simple(None),
        property_type: None,
        resource_type: "X",
    }
}

#[test]
fn translates_scalar_leaves() {
    let tree = empty_tree();
    let spec = empty_spec();
    let ctx = simple_ctx(&tree, &spec);
    assert_eq!(translate_resource(&ResourceValue::Null, &ctx).unwrap(), ResourceIr::Null);
    assert_eq!(
        translate_resource(&ResourceValue::Bool(true), &ctx).unwrap(),
        ResourceIr::Bool(true)
    );
    assert_eq!(
        translate_resource(&ResourceValue::Number(-7), &ctx).unwrap(),
        ResourceIr::Number(-7)
    );
    assert_eq!(
        translate_resource(&ResourceValue::String(s("hi")), &ctx).unwrap(),
        ResourceIr::String(s("hi"))
    );
}

#[test]
fn translates_same_input_twice_identically() {
    let tree = empty_tree();
    let spec = empty_spec();
    let ctx = simple_ctx(&tree, &spec);
    let value = ResourceValue::Array(vec![
        ResourceValue::Object(vec![(s("a"), ResourceValue::Number(1))]),
        ResourceValue::Sub(vec![ResourceValue::String(s("${A}-x-${B}"))]),
        ResourceValue::Join(vec![ResourceValue::String(s(",")), ResourceValue::Bool(false)]),
    ]);
    let first = translate_resource(&value, &ctx).unwrap();
    let second = translate_resource(&value, &ctx).unwrap();
    assert_eq!(first, second);
}

#[test]
fn unknown_key_under_complex_type_is_reported() {
    let tree = empty_tree();
    let spec = Specification {
        resource_types: vec![],
        property_types: vec![(
            s("XProp"),
            TypeRule {
                properties: Some(vec![(
                    s("Q"),
                    PropertyRule { complexity: Complexity::Simple(None) },
                )]),
            },
        )],
    };
    let ctx = ResourceTranslationInputs {
        parse_tree: &tree,
        specification: &spec,
        complexity: Complexity::Complex(s("XProp")),
        property_type: Some("XProp"),
        resource_type: "X",
    };
    let value = ResourceValue::Object(vec![(s("R"), ResourceValue::String(s("v")))]);
    let err = translate_resource(&value, &ctx).unwrap_err();
    assert_eq!(err.details, "unknown property R for property type XProp");
}

#[test]
fn sub_preserves_fragment_order() {
    let tree = empty_tree();
    let spec = empty_spec();
    let ctx = simple_ctx(&tree, &spec);
    let value = ResourceValue::Sub(vec![ResourceValue::String(s("${A}-x-${B}"))]);
    let ir = translate_resource(&value, &ctx).unwrap();
    assert_eq!(
        ir,
        ResourceIr::Sub(vec![
            ResourceIr::Ref(Reference { name: s("A"), origin: Origin::LogicalId }),
            ResourceIr::String(s("-x-")),
            ResourceIr::Ref(Reference { name: s("B"), origin: Origin::LogicalId }),
        ])
    );
}

#[test]
fn sub_override_takes_precedence() {
    let tree = empty_tree();
    let spec = empty_spec();
    let ctx = simple_ctx(&tree, &spec);
    let value = ResourceValue::Sub(vec![
        ResourceValue::String(s("${A}")),
        ResourceValue::Object(vec![(s("A"), ResourceValue::String(s("literal")))]),
    ]);
    let ir = translate_resource(&value, &ctx).unwrap();
    assert_eq!(ir, ResourceIr::Sub(vec![ResourceIr::String(s("literal"))]));
}

#[test]
fn sub_later_override_wins() {
    let tree = empty_tree();
    let spec = empty_spec();
    let ctx = simple_ctx(&tree, &spec);
    let value = ResourceValue::Sub(vec![
        ResourceValue::String(s("${A}")),
        ResourceValue::Object(vec![(s("A"), ResourceValue::String(s("first")))]),
        ResourceValue::Object(vec![(s("A"), ResourceValue::String(s("second")))]),
    ]);
    let ir = translate_resource(&value, &ctx).unwrap();
    assert_eq!(ir, ResourceIr::Sub(vec![ResourceIr::String(s("second"))]));
}

#[test]
fn sub_first_value_must_be_string() {
    let tree = empty_tree();
    let spec = empty_spec();
    let ctx = simple_ctx(&tree, &spec);
    let err = translate_resource(&ResourceValue::Sub(vec![ResourceValue::Number(3)]), &ctx)
        .unwrap_err();
    assert_eq!(err.details, "First value in sub must be a string");
    let err = translate_resource(&ResourceValue::Sub(vec![]), &ctx).unwrap_err();
    assert_eq!(err.details, "First value in sub must be a string");
}

#[test]
fn sub_override_must_be_object() {
    let tree = empty_tree();
    let spec = empty_spec();
    let ctx = simple_ctx(&tree, &spec);
    let value = ResourceValue::Sub(vec![
        ResourceValue::String(s("${A}")),
        ResourceValue::Number(1),
    ]);
    let err = translate_resource(&value, &ctx).unwrap_err();
    assert_eq!(err.details, "Sub excess map must be an object");
}

#[test]
fn sub_unterminated_variable_fails() {
    let tree = empty_tree();
    let spec = empty_spec();
    let ctx = simple_ctx(&tree, &spec);
    let value = ResourceValue::Sub(vec![ResourceValue::String(s("a${B"))]);
    let err = translate_resource(&value, &ctx).unwrap_err();
    assert_eq!(err.details, "unterminated variable in substitution template");
}

#[test]
fn pseudo_parameter_beats_declared_parameter() {
    let tree = CloudformationParseTree {
        resources: vec![],
        parameters: vec![s("AWS::Region")],
    };
    let reference = find_ref("AWS::Region", &tree);
    assert_eq!(reference.origin, Origin::PseudoParameter(PseudoParameter::Region));
    assert_eq!(reference.name, s("AWS::Region"));
}

#[test]
fn declared_parameter_resolves_to_parameter() {
    let tree = CloudformationParseTree { resources: vec![], parameters: vec![s("Stage")] };
    let reference = find_ref("Stage", &tree);
    assert_eq!(reference.origin, Origin::Parameter);
}

#[test]
fn unknown_symbol_falls_back_to_logical_id() {
    let tree = CloudformationParseTree { resources: vec![], parameters: vec![s("Stage")] };
    let reference = find_ref("SomethingElse", &tree);
    assert_eq!(reference.origin, Origin::LogicalId);
}

#[test]
fn all_pseudo_parameters_resolve() {
    let tree = empty_tree();
    let cases = [
        ("AWS::Partition", PseudoParameter::Partition),
        ("AWS::Region", PseudoParameter::Region),
        ("AWS::StackId", PseudoParameter::StackId),
        ("AWS::StackName", PseudoParameter::StackName),
        ("AWS::AccountId", PseudoParameter::AccountId),
        ("AWS::NoValue", PseudoParameter::NoValue),
        ("AWS::NotificationARNs", PseudoParameter::NotificationArns),
    ];
    for (name, expected) in cases {
        let reference = find_ref(name, &tree);
        assert_eq!(reference.origin, Origin::PseudoParameter(expected));
    }
}

#[test]
fn join_with_no_operands_is_not_an_error() {
    let tree = empty_tree();
    let spec = empty_spec();
    let ctx = simple_ctx(&tree, &spec);
    let ir = translate_resource(&ResourceValue::Join(vec![ResourceValue::String(s(","))]), &ctx)
        .unwrap();
    assert_eq!(ir, ResourceIr::Join(s(","), vec![]));
}

#[test]
fn join_with_non_string_separator_is_join_error() {
    let tree = empty_tree();
    let spec = empty_spec();
    let ctx = simple_ctx(&tree, &spec);
    let err = translate_resource(&ResourceValue::Join(vec![ResourceValue::Number(1)]), &ctx)
        .unwrap_err();
    assert_eq!(err.details, "Separator for join must be a string");
    let err = translate_resource(&ResourceValue::Join(vec![]), &ctx).unwrap_err();
    assert_eq!(err.details, "Separator for join must be a string");
}

#[test]
fn join_translates_operands_in_order() {
    let tree = empty_tree();
    let spec = empty_spec();
    let ctx = simple_ctx(&tree, &spec);
    let value = ResourceValue::Join(vec![
        ResourceValue::String(s("-")),
        ResourceValue::String(s("a")),
        ResourceValue::Ref(s("B")),
    ]);
    let ir = translate_resource(&value, &ctx).unwrap();
    assert_eq!(
        ir,
        ResourceIr::Join(
            s("-"),
            vec![
                ResourceIr::String(s("a")),
                ResourceIr::Ref(Reference { name: s("B"), origin: Origin::LogicalId }),
            ],
        )
    );
}

#[test]
fn if_intrinsic_translates() {
    let tree = empty_tree();
    let spec = empty_spec();
    let ctx = simple_ctx(&tree, &spec);
    let value = ResourceValue::If(
        Box::new(ResourceValue::String(s("IsProd"))),
        Box::new(ResourceValue::Number(1)),
        Box::new(ResourceValue::Number(2)),
    );
    let ir = translate_resource(&value, &ctx).unwrap();
    assert_eq!(
        ir,
        ResourceIr::If(
            s("IsProd"),
            Box::new(ResourceIr::Number(1)),
            Box::new(ResourceIr::Number(2)),
        )
    );
}

#[test]
fn if_condition_must_be_string() {
    let tree = empty_tree();
    let spec = empty_spec();
    let ctx = simple_ctx(&tree, &spec);
    let value = ResourceValue::If(
        Box::new(ResourceValue::Bool(true)),
        Box::new(ResourceValue::Number(1)),
        Box::new(ResourceValue::Number(2)),
    );
    let err = translate_resource(&value, &ctx).unwrap_err();
    assert_eq!(err.details, "Resource value if statement truth must be a string");
}

#[test]
fn getatt_translates() {
    let tree = empty_tree();
    let spec = empty_spec();
    let ctx = simple_ctx(&tree, &spec);
    let value = ResourceValue::GetAtt(
        Box::new(ResourceValue::String(s("Bucket"))),
        Box::new(ResourceValue::String(s("Arn"))),
    );
    let ir = translate_resource(&value, &ctx).unwrap();
    assert_eq!(ir, ResourceIr::GetAtt(s("Bucket"), s("Arn")));
}

#[test]
fn getatt_operand_must_be_string() {
    let tree = empty_tree();
    let spec = empty_spec();
    let ctx = simple_ctx(&tree, &spec);
    let value = ResourceValue::GetAtt(
        Box::new(ResourceValue::Number(1)),
        Box::new(ResourceValue::String(s("Arn"))),
    );
    let err = translate_resource(&value, &ctx).unwrap_err();
    assert_eq!(err.details, "Get attribute first element must be a string");
    let value = ResourceValue::GetAtt(
        Box::new(ResourceValue::String(s("Bucket"))),
        Box::new(ResourceValue::Null),
    );
    let err = translate_resource(&value, &ctx).unwrap_err();
    assert_eq!(err.details, "Get attribute first element must be a string");
}

#[test]
fn find_in_map_translates_all_three_operands() {
    let tree = empty_tree();
    let spec = empty_spec();
    let ctx = simple_ctx(&tree, &spec);
    let value = ResourceValue::FindInMap(
        Box::new(ResourceValue::String(s("RegionMap"))),
        Box::new(ResourceValue::Ref(s("AWS::Region"))),
        Box::new(ResourceValue::String(s("Ami"))),
    );
    let ir = translate_resource(&value, &ctx).unwrap();
    assert_eq!(
        ir,
        ResourceIr::FindInMap(
            Box::new(ResourceIr::String(s("RegionMap"))),
            Box::new(ResourceIr::Ref(Reference {
                name: s("AWS::Region"),
                origin: Origin::PseudoParameter(PseudoParameter::Region),
            })),
            Box::new(ResourceIr::String(s("Ami"))),
        )
    );
}

#[test]
fn array_inherits_complexity_unchanged() {
    let tree = empty_tree();
    let spec = empty_spec();
    let ctx = simple_ctx(&tree, &spec);
    let value = ResourceValue::Array(vec![
        ResourceValue::String(s("a")),
        ResourceValue::Number(2),
    ]);
    let ir = translate_resource(&value, &ctx).unwrap();
    assert_eq!(
        ir,
        ResourceIr::Array(
            Complexity::Simple(None),
            vec![ResourceIr::String(s("a")), ResourceIr::Number(2)],
        )
    );
}

#[test]
fn simple_object_keeps_its_context_for_every_value() {
    let tree = empty_tree();
    let spec = empty_spec();
    let ctx = simple_ctx(&tree, &spec);
    let value = ResourceValue::Object(vec![(
        s("outer"),
        ResourceValue::Object(vec![(s("inner"), ResourceValue::String(s("v")))]),
    )]);
    let ir = translate_resource(&value, &ctx).unwrap();
    assert_eq!(
        ir,
        ResourceIr::Object(
            Complexity::Simple(None),
            vec![(
                s("outer"),
                ResourceIr::Object(
                    Complexity::Simple(None),
                    vec![(s("inner"), ResourceIr::String(s("v")))],
                ),
            )],
        )
    );
}

#[test]
fn end_to_end_complex_property() {
    let spec = Specification {
        resource_types: vec![(
            s("X"),
            TypeRule {
                properties: Some(vec![(
                    s("P"),
                    PropertyRule { complexity: Complexity::Complex(s("XProp")) },
                )]),
            },
        )],
        property_types: vec![(
            s("XProp"),
            TypeRule {
                properties: Some(vec![(
                    s("Q"),
                    PropertyRule { complexity: Complexity::Simple(None) },
                )]),
            },
        )],
    };
    let tree = CloudformationParseTree {
        resources: vec![ResourceParseTree {
            name: s("Res"),
            resource_type: s("X"),
            condition: None,
            properties: vec![(
                s("P"),
                ResourceValue::Object(vec![(s("Q"), ResourceValue::String(s("v")))]),
            )],
        }],
        parameters: vec![],
    };
    let (instructions, errors) = translates_resources(&tree, &spec);
    assert!(errors.is_empty());
    assert_eq!(instructions.len(), 1);
    let instruction = &instructions[0];
    assert_eq!(instruction.name, s("Res"));
    assert_eq!(instruction.condition, None);
    assert_eq!(instruction.resource_type, s("X"));
    assert_eq!(
        instruction.properties,
        vec![(
            s("P"),
            ResourceIr::Object(
                Complexity::Complex(s("XProp")),
                vec![(s("Q"), ResourceIr::String(s("v")))],
            ),
        )]
    );
}

#[test]
fn unknown_resource_type_is_collected_not_fatal() {
    let spec = Specification {
        resource_types: vec![(s("X"), TypeRule { properties: Some(vec![]) })],
        property_types: vec![],
    };
    let tree = CloudformationParseTree {
        resources: vec![
            ResourceParseTree {
                name: s("Bad"),
                resource_type: s("Y"),
                condition: None,
                properties: vec![],
            },
            ResourceParseTree {
                name: s("Good"),
                resource_type: s("X"),
                condition: Some(s("IsProd")),
                properties: vec![],
            },
        ],
        parameters: vec![],
    };
    let (instructions, errors) = translates_resources(&tree, &spec);
    assert_eq!(instructions.len(), 1);
    assert_eq!(instructions[0].name, s("Good"));
    assert_eq!(instructions[0].condition, Some(s("IsProd")));
    assert_eq!(errors.len(), 1);
    assert_eq!(errors[0].0, s("Bad"));
    assert_eq!(errors[0].1.details, "unknown resource type Y");
}

#[test]
fn unknown_property_of_resource_type_is_reported() {
    let spec = Specification {
        resource_types: vec![(s("X"), TypeRule { properties: Some(vec![]) })],
        property_types: vec![],
    };
    let tree = CloudformationParseTree {
        resources: vec![ResourceParseTree {
            name: s("Res"),
            resource_type: s("X"),
            condition: None,
            properties: vec![(s("P"), ResourceValue::Null)],
        }],
        parameters: vec![],
    };
    let (instructions, errors) = translates_resources(&tree, &spec);
    assert!(instructions.is_empty());
    assert_eq!(errors.len(), 1);
    assert_eq!(errors[0].1.details, "unknown property P for resource type X");
}

#[test]
fn sub_parse_literal_only() {
    let frags = sub_parse_tree("plain text").unwrap();
    assert_eq!(frags, vec![SubValue::String(s("plain text"))]);
}

#[test]
fn sub_parse_single_variable() {
    let frags = sub_parse_tree("${Name}").unwrap();
    assert_eq!(frags, vec![SubValue::Variable(s("Name"))]);
}

#[test]
fn sub_parse_adjacent_variables() {
    let frags = sub_parse_tree("${A}${B}").unwrap();
    assert_eq!(frags, vec![SubValue::Variable(s("A")), SubValue::Variable(s("B"))]);
}

#[test]
fn sub_parse_dollar_without_brace_is_literal() {
    let frags = sub_parse_tree("cost: $5").unwrap();
    assert_eq!(frags, vec![SubValue::String(s("cost: $5"))]);
}

#[test]
fn sub_parse_empty_template() {
    let frags = sub_parse_tree("").unwrap();
    assert!(frags.is_empty());
}

#[test]
fn sub_parse_unterminated_variable_fails() {
    let err = sub_parse_tree("a${B").unwrap_err();
    assert_eq!(err.details, "unterminated variable in substitution template");
}

#[test]
fn unknown_property_type_is_reported() {
    let tree = empty_tree();
    let spec = empty_spec();
    let ctx = ResourceTranslationInputs {
        parse_tree: &tree,
        specification: &spec,
        complexity: Complexity::Complex(s("Missing")),
        property_type: Some("Missing"),
        resource_type: "X",
    };
    let value = ResourceValue::Object(vec![(s("Q"), ResourceValue::Null)]);
    let err = translate_resource(&value, &ctx).unwrap_err();
    assert_eq!(err.details, "unknown property type Missing");
}

#[test]
fn sub_variable_resolves_against_template_parameters() {
    let tree = CloudformationParseTree { resources: vec![], parameters: vec![s("Stage")] };
    let spec = empty_spec();
    let ctx = simple_ctx(&tree, &spec);
    let value = ResourceValue::Sub(vec![ResourceValue::String(s("${Stage}"))]);
    let ir = translate_resource(&value, &ctx).unwrap();
    assert_eq!(
        ir,
        ResourceIr::Sub(vec![ResourceIr::Ref(Reference {
            name: s("Stage"),
            origin: Origin::Parameter,
        })])
    );
}

#[test]
fn driver_keeps_resource_declaration_order() {
    let spec = Specification {
        resource_types: vec![(s("X"), TypeRule { properties: Some(vec![]) })],
        property_types: vec![],
    };
    let tree = CloudformationParseTree {
        resources: vec![
            ResourceParseTree {
                name: s("First"),
                resource_type: s("X"),
                condition: None,
                properties: vec![],
            },
            ResourceParseTree {
                name: s("Broken"),
                resource_type: s("Nope"),
                condition: None,
                properties: vec![],
            },
            ResourceParseTree {
                name: s("Second"),
                resource_type: s("X"),
                condition: None,
                properties: vec![],
            },
        ],
        parameters: vec![],
    };
    let (instructions, errors) = translates_resources(&tree, &spec);
    assert_eq!(instructions.len(), 2);
    assert_eq!(instructions[0].name, s("First"));
    assert_eq!(instructions[1].name, s("Second"));
    assert_eq!(errors.len(), 1);
    assert_eq!(errors[0].0, s("Broken"));
}
