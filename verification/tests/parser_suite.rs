use node_selector::expr::{IndirectSelection, MethodName, SelectExpression};
use node_selector::parser::{ErrorCode, SelectorParser};
use node_selector::surface::{
    AtomExpr, CompositeExpr, CompositeKind, ExcludeAtomExpr, MethodAtomExpr, SelectorDefinition,
    SelectorDefinitionValue, SelectorExpr,
};

#[test]
fn test_string_selector() {
    let parser = SelectorParser::new(Vec::new());
    let result = parser
        .parse_definition(&SelectorDefinitionValue::String("model_a".to_string()))
        .unwrap();

    if let SelectExpression::Atom(criteria) = result {
        assert_eq!(criteria.method, MethodName::Fqn);
        assert_eq!(criteria.value, "model_a");
        assert!(!criteria.childrens_parents);
        assert!(criteria.parents_depth.is_none());
        assert!(criteria.children_depth.is_none());
    } else {
        panic!("Expected Atom expression");
    }
}

#[test]
fn test_method_key_selector() {
    let parser = SelectorParser::new(Vec::new());

    let method_value = vec![("tag".to_string(), "nightly".to_string())];

    let result = parser.parse_atom(&AtomExpr::MethodKey(method_value)).unwrap();

    if let SelectExpression::Atom(criteria) = result {
        assert_eq!(criteria.method, MethodName::Tag);
        assert_eq!(criteria.value, "nightly");
        assert!(!criteria.childrens_parents);
        assert!(criteria.parents_depth.is_none());
        assert!(criteria.children_depth.is_none());
        assert_eq!(criteria.indirect, Some(IndirectSelection::default()));
    } else {
        panic!("Expected Atom expression");
    }
}

#[test]
fn test_method_key_multiple_pairs() {
    let parser = SelectorParser::new(Vec::new());

    let method_value = vec![
        ("tag".to_string(), "nightly".to_string()),
        ("path".to_string(), "models/".to_string()),
    ];

    let result = parser.parse_atom(&AtomExpr::MethodKey(method_value));
    assert!(result.is_err());
    if let Err(e) = result {
        assert_eq!(e.code(), ErrorCode::SelectorError);
        assert!(e
            .message()
            .contains("MethodKey must have exactly one key-value pair"));
    }
}

#[test]
fn test_exclude_handling() {
    let parser = SelectorParser::new(Vec::new());

    // A single exclude entry nests within the criteria.
    let single_result = parser
        .parse_atom(&AtomExpr::Method(MethodAtomExpr {
            method: "tag".to_string(),
            value: "nightly".to_string(),
            childrens_parents: false,
            parents: false,
            children: false,
            parents_depth: None,
            children_depth: None,
            indirect_selection: Some(IndirectSelection::default()),
            exclude: Some(vec![SelectorDefinitionValue::String(
                "model_to_exclude".to_string(),
            )]),
        }))
        .unwrap();

    if let SelectExpression::Atom(criteria) = single_result {
        assert_eq!(criteria.method, MethodName::Tag);
        assert_eq!(criteria.value, "nightly");
        if let Some(exclude_expr) = criteria.exclude {
            if let SelectExpression::Atom(exclude_criteria) = *exclude_expr {
                assert_eq!(exclude_criteria.method, MethodName::Fqn);
                assert_eq!(exclude_criteria.value, "model_to_exclude");
            } else {
                panic!("Expected Atom expression inside nested exclude");
            }
        } else {
            panic!("Expected nested exclude in criteria");
        }
    } else {
        panic!("Expected Atom expression");
    }

    // Several exclude entries nest within the criteria as a union.
    let multiple_result = parser
        .parse_atom(&AtomExpr::Method(MethodAtomExpr {
            method: "tag".to_string(),
            value: "nightly".to_string(),
            childrens_parents: false,
            parents: false,
            children: false,
            parents_depth: None,
            children_depth: None,
            indirect_selection: Some(IndirectSelection::default()),
            exclude: Some(vec![
                SelectorDefinitionValue::String("model_a".to_string()),
                SelectorDefinitionValue::String("model_b".to_string()),
            ]),
        }))
        .unwrap();

    if let SelectExpression::Atom(criteria) = multiple_result {
        assert_eq!(criteria.method, MethodName::Tag);
        assert_eq!(criteria.value, "nightly");
        if let Some(exclude_expr) = criteria.exclude {
            if let SelectExpression::Or(exprs) = *exclude_expr {
                assert_eq!(exprs.len(), 2);
                if let (SelectExpression::Atom(a), SelectExpression::Atom(b)) =
                    (&exprs[0], &exprs[1])
                {
                    assert_eq!(a.method, MethodName::Fqn);
                    assert_eq!(a.value, "model_a");
                    assert_eq!(b.method, MethodName::Fqn);
                    assert_eq!(b.value, "model_b");
                } else {
                    panic!("Expected Atom expressions in nested exclude");
                }
            } else {
                panic!("Expected Or expression inside nested exclude");
            }
        } else {
            panic!("Expected nested exclude in criteria");
        }
    } else {
        panic!("Expected Atom expression");
    }
}

#[test]
fn test_standalone_exclude() {
    let parser = SelectorParser::new(Vec::new());

    let result = parser.parse_atom(&AtomExpr::Exclude(ExcludeAtomExpr {
        exclude: vec![SelectorDefinitionValue::String("model_exclude".to_string())],
    }));

    assert!(result.is_err());
    if let Err(e) = result {
        assert_eq!(e.code(), ErrorCode::SelectorError);
        assert!(e
            .message()
            .contains("Top level exclude not allowed in YAML selectors"));
    }
}

#[test]
fn test_composite_operations() {
    let parser = SelectorParser::new(Vec::new());

    // Union.
    let union_result = parser
        .parse_composite(&CompositeExpr {
            kind: vec![CompositeKind::Union(vec![
                SelectorDefinitionValue::String("model_a".to_string()),
                SelectorDefinitionValue::String("model_b".to_string()),
            ])],
        })
        .unwrap();

    if let SelectExpression::Or(exprs) = union_result {
        assert_eq!(exprs.len(), 2);
    } else {
        panic!("Expected Or expression for union");
    }

    // Intersection.
    let intersection_result = parser
        .parse_composite(&CompositeExpr {
            kind: vec![CompositeKind::Intersection(vec![
                SelectorDefinitionValue::String("model_a".to_string()),
                SelectorDefinitionValue::String("model_b".to_string()),
            ])],
        })
        .unwrap();

    if let SelectExpression::And(exprs) = intersection_result {
        assert_eq!(exprs.len(), 2);
    } else {
        panic!("Expected And expression for intersection");
    }

    // A composite whose operand carries its own exclude list: the exclude
    // nests within that operand's criteria.
    let composite_with_exclude = parser
        .parse_composite(&CompositeExpr {
            kind: vec![CompositeKind::Union(vec![
                SelectorDefinitionValue::String("tag:bar".to_string()),
                SelectorDefinitionValue::Full(SelectorExpr::Atom(AtomExpr::Method(
                    MethodAtomExpr {
                        method: "tag".to_string(),
                        value: "baz".to_string(),
                        childrens_parents: false,
                        parents: false,
                        children: false,
                        parents_depth: None,
                        children_depth: None,
                        indirect_selection: None,
                        exclude: Some(vec![SelectorDefinitionValue::String(
                            "single_exclude".to_string(),
                        )]),
                    },
                ))),
            ])],
        })
        .unwrap();

    if let SelectExpression::Or(exprs) = composite_with_exclude {
        assert_eq!(exprs.len(), 2);
        if let SelectExpression::Atom(criteria) = &exprs[0] {
            assert_eq!(criteria.method, MethodName::Tag);
            assert_eq!(criteria.value, "bar");
        } else {
            panic!("Expected first expression to be Atom");
        }
        if let SelectExpression::Atom(criteria) = &exprs[1] {
            assert_eq!(criteria.method, MethodName::Tag);
            assert_eq!(criteria.value, "baz");
            if let Some(exclude_expr) = &criteria.exclude {
                if let SelectExpression::Atom(exclude_criteria) = &**exclude_expr {
                    assert_eq!(exclude_criteria.method, MethodName::Fqn);
                    assert_eq!(exclude_criteria.value, "single_exclude");
                } else {
                    panic!("Expected Atom inside nested exclude");
                }
            } else {
                panic!("Expected nested exclude in criteria");
            }
        } else {
            panic!("Expected second expression to be Atom with nested exclude");
        }
    } else {
        panic!("Expected Or expression for composite");
    }
}

#[test]
fn test_selector_inheritance() {
    let defs = vec![(
        "foo_and_bar".to_string(),
        SelectorDefinition {
            name: "foo_and_bar".to_string(),
            description: None,
            default: None,
            definition: SelectorDefinitionValue::Full(SelectorExpr::Composite(CompositeExpr {
                kind: vec![CompositeKind::Intersection(vec![
                    SelectorDefinitionValue::String("tag:foo".to_string()),
                    SelectorDefinitionValue::String("tag:bar".to_string()),
                ])],
            })),
        },
    )];

    let parser = SelectorParser::new(defs);

    // Inheritance with an additional exclude on the referencing atom.
    let result = parser
        .parse_atom(&AtomExpr::Method(MethodAtomExpr {
            method: "selector".to_string(),
            value: "foo_and_bar".to_string(),
            childrens_parents: false,
            parents: false,
            children: false,
            parents_depth: None,
            children_depth: None,
            indirect_selection: None,
            exclude: Some(vec![SelectorDefinitionValue::String(
                "tag:buzz".to_string(),
            )]),
        }))
        .unwrap();

    // The intersection from foo_and_bar is inherited as-is.
    if let SelectExpression::And(exprs) = result {
        assert_eq!(exprs.len(), 2);
        let mut tag_values = Vec::new();
        for expr in &exprs {
            if let SelectExpression::Atom(criteria) = expr {
                assert_eq!(criteria.method, MethodName::Tag);
                tag_values.push(criteria.value.clone());
            }
        }
        tag_values.sort();
        assert_eq!(tag_values, vec!["bar", "foo"]);
    } else {
        panic!("Expected And expression from inherited selector");
    }
}

#[test]
fn test_selector_inheritance_with_exclude_combination() {
    let defs = vec![(
        "base_with_exclude".to_string(),
        SelectorDefinition {
            name: "base_with_exclude".to_string(),
            description: None,
            default: None,
            definition: SelectorDefinitionValue::Full(SelectorExpr::Atom(AtomExpr::Method(
                MethodAtomExpr {
                    method: "tag".to_string(),
                    value: "production".to_string(),
                    childrens_parents: false,
                    parents: false,
                    children: false,
                    parents_depth: None,
                    children_depth: None,
                    indirect_selection: None,
                    exclude: Some(vec![SelectorDefinitionValue::String(
                        "base_exclude".to_string(),
                    )]),
                },
            ))),
        },
    )];

    let parser = SelectorParser::new(defs);

    // Reference the base selector and attach more excludes.
    let result = parser
        .parse_atom(&AtomExpr::Method(MethodAtomExpr {
            method: "selector".to_string(),
            value: "base_with_exclude".to_string(),
            childrens_parents: false,
            parents: false,
            children: false,
            parents_depth: None,
            children_depth: None,
            indirect_selection: None,
            exclude: Some(vec![SelectorDefinitionValue::String(
                "additional_exclude".to_string(),
            )]),
        }))
        .unwrap();

    // The base selector's expression comes back with its own nested exclude.
    if let SelectExpression::Atom(criteria) = result {
        assert_eq!(criteria.method, MethodName::Tag);
        assert_eq!(criteria.value, "production");
        if let Some(exclude_expr) = criteria.exclude {
            if let SelectExpression::Atom(exclude_criteria) = *exclude_expr {
                assert_eq!(exclude_criteria.method, MethodName::Fqn);
                assert_eq!(exclude_criteria.value, "base_exclude");
            } else {
                panic!("Expected Atom expression inside nested exclude");
            }
        } else {
            panic!("Expected nested exclude in criteria");
        }
    } else {
        panic!("Expected Atom expression");
    }
}

#[test]
fn test_named_selector() {
    let defs = vec![(
        "nightly_models".to_string(),
        SelectorDefinition {
            name: "nightly_models".to_string(),
            description: None,
            default: None,
            definition: SelectorDefinitionValue::String("tag:nightly".to_string()),
        },
    )];

    let parser = SelectorParser::new(defs);
    let result = parser.parse_named("nightly_models").unwrap();

    if let SelectExpression::Atom(criteria) = result {
        assert_eq!(criteria.method, MethodName::Tag);
        assert_eq!(criteria.value, "nightly");
    } else {
        panic!("Expected Atom expression");
    }
}

#[test]
fn test_error_handling() {
    let parser = SelectorParser::new(Vec::new());

    // Unknown selector.
    let result = parser.parse_named("unknown");
    assert!(result.is_err());
    if let Err(e) = result {
        assert_eq!(e.code(), ErrorCode::SelectorError);
        assert!(e.message().contains("Unknown selector"));
    }

    // Unknown selector behind a reference.
    let inheritance_result = parser.parse_atom(&AtomExpr::Method(MethodAtomExpr {
        method: "selector".to_string(),
        value: "unknown_selector".to_string(),
        childrens_parents: false,
        parents: false,
        children: false,
        parents_depth: None,
        children_depth: None,
        indirect_selection: None,
        exclude: None,
    }));
    assert!(inheritance_result.is_err());
}

#[test]
fn test_graph_operators() {
    let parser = SelectorParser::new(Vec::new());

    let result = parser
        .parse_atom(&AtomExpr::Method(MethodAtomExpr {
            method: "tag".to_string(),
            value: "nightly".to_string(),
            childrens_parents: true,
            parents: true,
            children: true,
            parents_depth: Some(2),
            children_depth: Some(3),
            indirect_selection: Some(IndirectSelection::Cautious),
            exclude: None,
        }))
        .unwrap();

    if let SelectExpression::Atom(criteria) = result {
        assert_eq!(criteria.method, MethodName::Tag);
        assert_eq!(criteria.value, "nightly");
        assert!(criteria.childrens_parents);
        assert_eq!(criteria.parents_depth, Some(2));
        assert_eq!(criteria.children_depth, Some(3));
        assert_eq!(criteria.indirect, Some(IndirectSelection::Cautious));
    } else {
        panic!("Expected Atom expression");
    }
}

#[test]
fn test_full_vs_string_definitions() {
    let parser = SelectorParser::new(Vec::new());

    let expr = SelectorExpr::Atom(AtomExpr::Method(MethodAtomExpr {
        method: "tag".to_string(),
        value: "nightly".to_string(),
        childrens_parents: false,
        parents: false,
        children: false,
        parents_depth: None,
        children_depth: None,
        indirect_selection: Some(IndirectSelection::default()),
        exclude: None,
    }));

    let result = parser
        .parse_definition(&SelectorDefinitionValue::Full(expr))
        .unwrap();

    if let SelectExpression::Atom(criteria) = result {
        assert_eq!(criteria.method, MethodName::Tag);
        assert_eq!(criteria.value, "nightly");
    } else {
        panic!("Expected Atom expression");
    }
}

#[test]
fn test_indirect_selection_propagation() {
    let parser = SelectorParser::new(Vec::new());

    let expr = SelectorExpr::Composite(CompositeExpr {
        kind: vec![CompositeKind::Intersection(vec![
            SelectorDefinitionValue::String("model_a".to_string()),
            SelectorDefinitionValue::String("model_b".to_string()),
        ])],
    });

    let mut result = parser.parse_expr(&expr).unwrap();

    // Stamp the indirect-selection mode onto the whole tree.
    result.set_indirect_selection(IndirectSelection::Cautious);

    if let SelectExpression::And(exprs) = &result {
        for expr in exprs {
            if let SelectExpression::Atom(criteria) = expr {
                assert_eq!(criteria.indirect, Some(IndirectSelection::Cautious));
            } else {
                panic!("Expected Atom expression");
            }
        }
    } else {
        panic!("Expected And expression");
    }
}

// Helper to create a string selector.
fn s(val: &str) -> SelectorDefinitionValue {
    SelectorDefinitionValue::String(val.to_string())
}

// Helper to create an exclude block.
fn exclude(vals: Vec<&str>) -> SelectorDefinitionValue {
    let exclude_vals = vals.into_iter().map(s).collect();
    SelectorDefinitionValue::Full(SelectorExpr::Atom(AtomExpr::Exclude(ExcludeAtomExpr {
        exclude: exclude_vals,
    })))
}

// Helper to create a composite selector.
fn composite(kind: &str, items: Vec<SelectorDefinitionValue>) -> SelectorDefinitionValue {
    let k = match kind {
        "union" => CompositeKind::Union(items),
        "intersection" => CompositeKind::Intersection(items),
        _ => panic!("Unknown kind"),
    };
    SelectorDefinitionValue::Full(SelectorExpr::Composite(CompositeExpr { kind: vec![k] }))
}

#[test]
fn test_basic_union_with_exclude() {
    let parser = SelectorParser::new(Vec::new());

    // union: [A, exclude: [B]]  ==>  (A) AND NOT (B)

    let def = composite("union", vec![s("tag:A"), exclude(vec!["tag:B"])]);
    let result = parser.parse_definition(&def).unwrap();

    if let SelectExpression::And(exprs) = result {
        // [Or([A]), Exclude(B)]
        assert_eq!(exprs.len(), 2);
        if let SelectExpression::Or(inc) = &exprs[0] {
            assert_eq!(inc.len(), 1);
            if let SelectExpression::Atom(c) = &inc[0] {
                assert_eq!(c.value, "A");
            }
        }
        if let SelectExpression::Exclude(exc) = &exprs[1] {
            if let SelectExpression::Atom(c) = &**exc {
                assert_eq!(c.value, "B");
            }
        }
    } else {
        panic!("Expected And(Or([A]), Exclude(B)), got {:?}", result);
    }
}

#[test]
fn test_basic_intersection_with_exclude() {
    let parser = SelectorParser::new(Vec::new());

    // intersection: [A, exclude: [B]]  ==>  (A) AND NOT (B)

    let def = composite("intersection", vec![s("tag:A"), exclude(vec!["tag:B"])]);
    let result = parser.parse_definition(&def).unwrap();

    if let SelectExpression::And(exprs) = result {
        // [And([A]), Exclude(B)]
        assert_eq!(exprs.len(), 2);
        if let SelectExpression::And(inc) = &exprs[0] {
            if let SelectExpression::Atom(c) = &inc[0] {
                assert_eq!(c.value, "A");
            }
        }
        if let SelectExpression::Exclude(exc) = &exprs[1] {
            if let SelectExpression::Atom(c) = &**exc {
                assert_eq!(c.value, "B");
            }
        }
    } else {
        panic!("Expected And(And([A]), Exclude(B)), got {:?}", result);
    }
}

#[test]
fn test_multiple_excludes_union() {
    let parser = SelectorParser::new(Vec::new());

    // union: [A, exclude: [B], exclude: [C]]  ==>  (A) AND NOT (B OR C)

    let def = composite(
        "union",
        vec![s("tag:A"), exclude(vec!["tag:B"]), exclude(vec!["tag:C"])],
    );
    let result = parser.parse_definition(&def).unwrap();

    if let SelectExpression::And(exprs) = result {
        // [Or([A]), Exclude(Or([B, C]))]
        let ex = &exprs[1];
        if let SelectExpression::Exclude(inner) = ex {
            if let SelectExpression::Or(list) = &**inner {
                let vals: Vec<String> = list
                    .iter()
                    .map(|e| {
                        if let SelectExpression::Atom(c) = e {
                            c.value.clone()
                        } else {
                            "".to_string()
                        }
                    })
                    .collect();
                assert!(vals.contains(&"B".to_string()));
                assert!(vals.contains(&"C".to_string()));
            } else {
                panic!("Expected Or inside Exclude");
            }
        } else {
            panic!("Expected Exclude");
        }
    } else {
        panic!("Expected And");
    }
}

#[test]
fn test_multiple_excludes_intersection() {
    let parser = SelectorParser::new(Vec::new());

    // intersection: [A, exclude: [B], exclude: [C]]  ==>  (A) AND NOT (B OR C)

    let def = composite(
        "intersection",
        vec![s("tag:A"), exclude(vec!["tag:B"]), exclude(vec!["tag:C"])],
    );
    let result = parser.parse_definition(&def).unwrap();

    if let SelectExpression::And(exprs) = &result {
        // [And([A]), Exclude(Or([B, C]))]
        let ex = &exprs[1];
        if let SelectExpression::Exclude(inner) = ex {
            if let SelectExpression::Or(list) = &**inner {
                let vals: Vec<String> = list
                    .iter()
                    .map(|e| {
                        if let SelectExpression::Atom(c) = e {
                            c.value.clone()
                        } else {
                            "".to_string()
                        }
                    })
                    .collect();
                assert!(vals.contains(&"B".to_string()));
                assert!(vals.contains(&"C".to_string()));
            } else {
                panic!("Expected Or inside Exclude, got {:?}", inner);
            }
        } else {
            panic!("Expected Exclude, got {:?}", ex);
        }
    } else {
        panic!("Expected And expression, got {:?}", result);
    }
}

#[test]
fn test_union_of_intersections_with_exclude() {
    // union:
    //   - intersection: [A, union: [B, C, exclude: [D]]]
    //   - intersection: [E, F]

    let parser = SelectorParser::new(Vec::new());

    let inner_union = composite("union", vec![s("tag:B"), s("tag:C"), exclude(vec!["tag:D"])]);

    let intersection1 = composite("intersection", vec![s("tag:A"), inner_union]);

    let intersection2 = composite("intersection", vec![s("tag:E"), s("tag:F")]);

    let top = composite("union", vec![intersection1, intersection2]);

    let result = parser.parse_definition(&top).unwrap();

    // Structure:
    // Or([
    //   And([ A, And([ Or([B, C]), Exclude(D) ]) ]),
    //   And([ E, F ])
    // ])

    if let SelectExpression::Or(top_list) = &result {
        assert_eq!(top_list.len(), 2);

        if let SelectExpression::And(i1) = &top_list[0] {
            if let SelectExpression::Atom(a) = &i1[0] {
                assert_eq!(a.value, "A");
            } else {
                panic!("Expected Atom A, got {:?}", i1[0]);
            }

            if let SelectExpression::And(u) = &i1[1] {
                if let SelectExpression::Or(bc) = &u[0] {
                    assert_eq!(bc.len(), 2);
                } else {
                    panic!("Expected Or([B,C]), got {:?}", u[0]);
                }

                if let SelectExpression::Exclude(d) = &u[1] {
                    if let SelectExpression::Atom(da) = &**d {
                        assert_eq!(da.value, "D");
                    } else {
                        panic!("Expected Atom D inside exclude, got {:?}", d);
                    }
                } else {
                    panic!("Expected Exclude(D), got {:?}", u[1]);
                }
            } else {
                panic!("Expected InnerUnion And, got {:?}", i1[1]);
            }
        } else {
            panic!("Expected Intersection 1 And, got {:?}", top_list[0]);
        }

        if let SelectExpression::And(i2) = &top_list[1] {
            assert_eq!(i2.len(), 2);
        } else {
            panic!("Expected Intersection 2 And, got {:?}", top_list[1]);
        }
    } else {
        panic!("Expected Or top level, got {:?}", result);
    }
}

#[test]
fn test_intersection_of_unions_with_exclude() {
    // intersection:
    //   - union: [A, exclude: [B]]
    //   - union: [C, exclude: [D]]

    let parser = SelectorParser::new(Vec::new());

    let u1 = composite("union", vec![s("tag:A"), exclude(vec!["tag:B"])]);
    let u2 = composite("union", vec![s("tag:C"), exclude(vec!["tag:D"])]);

    let top = composite("intersection", vec![u1, u2]);

    let result = parser.parse_definition(&top).unwrap();

    // And([
    //   And([ Or([A]), Exclude(B) ]),
    //   And([ Or([C]), Exclude(D) ])
    // ])

    if let SelectExpression::And(top_list) = &result {
        assert_eq!(top_list.len(), 2);
        if let SelectExpression::And(u1_res) = &top_list[0] {
            if let SelectExpression::Exclude(ex) = &u1_res[1] {
                if let SelectExpression::Atom(c) = &**ex {
                    assert_eq!(c.value, "B");
                } else {
                    panic!("Expected Atom B, got {:?}", ex);
                }
            } else {
                panic!("Expected Exclude B, got {:?}", u1_res[1]);
            }
        } else {
            panic!("Expected And u1_res, got {:?}", top_list[0]);
        }

        if let SelectExpression::And(u2_res) = &top_list[1] {
            if let SelectExpression::Exclude(ex) = &u2_res[1] {
                if let SelectExpression::Atom(c) = &**ex {
                    assert_eq!(c.value, "D");
                } else {
                    panic!("Expected Atom D, got {:?}", ex);
                }
            } else {
                panic!("Expected Exclude D, got {:?}", u2_res[1]);
            }
        } else {
            panic!("Expected And u2_res, got {:?}", top_list[1]);
        }
    } else {
        panic!("Expected And top level, got {:?}", result);
    }
}

#[test]
fn test_deeply_nested_excludes() {
    // union:
    //   - exclude:
    //       - union:
    //           - A
    //           - exclude: [B]

    let parser = SelectorParser::new(Vec::new());

    let inner = composite("union", vec![s("tag:A"), exclude(vec!["tag:B"])]);

    let exclude_inner = SelectorDefinitionValue::Full(SelectorExpr::Atom(AtomExpr::Exclude(
        ExcludeAtomExpr {
            exclude: vec![inner],
        },
    )));

    let top = composite("union", vec![exclude_inner]);

    let result = parser.parse_definition(&top).unwrap();

    // A union holding only an exclude keeps the empty include union as a
    // structural artifact: And([ Or([]), Exclude(...) ]).

    if let SelectExpression::And(list) = &result {
        if let SelectExpression::Exclude(inner_res) = &list[1] {
            // The inner content parses as And([ Or([A]), Exclude(B) ]).
            if let SelectExpression::And(parts) = &**inner_res {
                assert_eq!(parts.len(), 2);
                if let SelectExpression::Exclude(b) = &parts[1] {
                    if let SelectExpression::Atom(c) = &**b {
                        assert_eq!(c.value, "B");
                    } else {
                        panic!("Expected Atom B, got {:?}", b);
                    }
                } else {
                    panic!("Expected Exclude B, got {:?}", parts[1]);
                }
            } else {
                panic!("Expected And inside Exclude, got {:?}", inner_res);
            }
        } else {
            panic!("Expected Exclude at index 1, got {:?}", list[1]);
        }
    } else {
        panic!(
            "Expected And top level (union of only exclude -> And(Or([]), Exclude)), got {:?}",
            result
        );
    }
}
