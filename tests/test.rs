use clap_derive::{
    Annotation, AttrError, AttrValue, Attributes, Body, CliError, DispatchError, Fields, Package,
    Registry, SchemaError, SchemaNode, TypeDef, Value, VariantAttributes, VariantDef,
};

fn word(k: &str) -> Annotation {
    Annotation { key: k.to_string(), value: None }
}

fn kv(k: &str, v: &str) -> Annotation {
    Annotation { key: k.to_string(), value: Some(AttrValue::Str(v.to_string())) }
}

fn other(k: &str, v: &str) -> Annotation {
    Annotation { key: k.to_string(), value: Some(AttrValue::Other(v.to_string())) }
}

fn package() -> Package {
    Package { name: "clap_derive".to_string(), description: "a schema compiler".to_string() }
}

fn record(ident: &str, attrs: Vec<Annotation>) -> TypeDef {
    TypeDef { ident: ident.to_string(), attrs, body: Body::Struct(Fields::Unit) }
}

fn member(ident: &str, attrs: Vec<Annotation>, ty: &str) -> VariantDef {
    VariantDef {
        ident: ident.to_string(),
        attrs,
        fields: Fields::Tuple(vec![ty.to_string()]),
    }
}

fn my_app() -> (Registry, usize) {
    let mut reg = Registry::new();
    reg.derive_clap_app(&record("Foo", vec![kv("name", "foo"), kv("about", "Foo app")]))
        .unwrap();
    reg.derive_clap_app(&record("Bar", vec![kv("name", "bar"), kv("about", "Bar app")]))
        .unwrap();
    let def = TypeDef {
        ident: "MyApp".to_string(),
        attrs: vec![
            kv("name", "myapp"),
            kv("about", "My sample application"),
            word("VersionlessSubcommands"),
            word("SubcommandRequiredElseHelp"),
        ],
        body: Body::Enum(vec![
            member("Foo", vec![kv("name", "foo")], "Foo"),
            member("Bar", vec![kv("name", "hoge")], "Bar"),
        ]),
    };
    let i = reg.derive_clap_app(&def).unwrap();
    (reg, i)
}

fn args(v: &[&str]) -> Vec<String> {
    v.iter().map(|s| s.to_string()).collect()
}

fn selected(ty: &str, variant: &str, payload: &str) -> Value {
    Value::Variant {
        ty: ty.to_string(),
        variant: variant.to_string(),
        payload: Box::new(Value::Record(payload.to_string())),
    }
}

#[test]
fn test_app() {
    let (reg, i) = my_app();
    let app = reg.get_matches_from(i, &package(), args(&["myapp", "foo"])).unwrap();
    println!("{:?}", app);
    assert_eq!(app, selected("MyApp", "Foo", "Foo"));
}

#[test]
fn scenario_selects_each_member_and_requires_one() {
    let (reg, i) = my_app();
    let bar = reg.get_matches_from(i, &package(), args(&["myapp", "hoge"])).unwrap();
    assert_eq!(bar, selected("MyApp", "Bar", "Bar"));
    let foo = reg.get_matches_from(i, &package(), args(&["myapp", "foo"])).unwrap();
    assert_eq!(foo, selected("MyApp", "Foo", "Foo"));
    let none = reg.get_matches_from(i, &package(), args(&["myapp"]));
    assert!(matches!(none, Err(CliError::Args(_))));
    let unknown = reg.get_matches_from(i, &package(), args(&["myapp", "bar"]));
    assert!(matches!(unknown, Err(CliError::Args(_))));
}

#[test]
fn settings_keep_declaration_order() {
    let items = vec![word("B"), kv("name", "n"), word("A"), kv("about", "x"), word("B")];
    let a = Attributes::new(&items).unwrap();
    assert_eq!(a.settings, vec!["B".to_string(), "A".to_string(), "B".to_string()]);
    assert_eq!(a.name, Some("n".to_string()));
    assert_eq!(a.about, Some("x".to_string()));
}

#[test]
fn empty_annotations_parse_to_nothing() {
    let a = Attributes::new(&vec![]).unwrap();
    assert_eq!(a.name, None);
    assert_eq!(a.about, None);
    assert!(a.settings.is_empty());
}

#[test]
fn unknown_key_is_reported_with_the_key() {
    let items = vec![kv("name", "n"), kv("help", "h"), kv("version", "1")];
    let e = Attributes::new(&items).err().unwrap();
    assert_eq!(e, AttrError::UnknownAttributeKey("help".to_string()));
}

#[test]
fn unknown_key_wins_over_earlier_duplicate() {
    let items = vec![kv("name", "a"), kv("name", "b"), kv("author", "z")];
    let e = Attributes::new(&items).err().unwrap();
    assert_eq!(e, AttrError::UnknownAttributeKey("author".to_string()));
}

#[test]
fn non_string_value_is_invalid() {
    let items = vec![other("about", "3")];
    let e = Attributes::new(&items).err().unwrap();
    assert_eq!(e, AttrError::InvalidAttributeValue("about".to_string()));
}

#[test]
fn repeated_key_is_duplicate() {
    let items = vec![kv("name", "a"), word("S"), kv("name", "b")];
    let e = Attributes::new(&items).err().unwrap();
    assert_eq!(e, AttrError::DuplicateField("name".to_string()));
}

#[test]
fn member_annotations_recognize_name_and_help() {
    let a = VariantAttributes::new(&vec![kv("help", "h"), kv("name", "n")]).unwrap();
    assert_eq!(a.name, Some("n".to_string()));
    assert_eq!(a.help, Some("h".to_string()));
    let e = VariantAttributes::new(&vec![kv("about", "x")]).err().unwrap();
    assert_eq!(e, AttrError::UnknownAttributeKey("about".to_string()));
    let e = VariantAttributes::new(&vec![word("Hidden")]).err().unwrap();
    assert_eq!(e, AttrError::UnknownAttributeKey("Hidden".to_string()));
    let e = VariantAttributes::new(&vec![word("name")]).err().unwrap();
    assert_eq!(e, AttrError::InvalidAttributeValue("name".to_string()));
}

#[test]
fn leaf_defaults_to_package_name_and_description() {
    let a = Attributes::new(&vec![]).unwrap();
    assert_eq!(a.attribute_name(&package()), "clap_derive");
    assert_eq!(a.attribute_about(&package()), "a schema compiler");
    let b = Attributes::new(&vec![kv("name", "x"), kv("about", "y")]).unwrap();
    assert_eq!(b.attribute_name(&package()), "x");
    assert_eq!(b.attribute_about(&package()), "y");
}

#[test]
fn member_defaults_to_lower_case_identifier() {
    let a = VariantAttributes::new(&vec![]).unwrap();
    let ident = "MyCommand".to_string();
    assert_eq!(a.attribute_name(&ident), "mycommand");
    assert_eq!(a.attribute_about(&ident), "MyCommand");
}

#[test]
fn round_trip_through_reconstruct() {
    let (reg, i) = my_app();
    let node = reg.app(i, &package());
    let foo_name = node.subcommands[0].name.clone();
    let bar_name = node.subcommands[1].name.clone();
    assert_eq!(foo_name, "foo");
    assert_eq!(bar_name, "hoge");
    assert_eq!(reg.reconstruct(i, &vec![foo_name]).unwrap(), selected("MyApp", "Foo", "Foo"));
    assert_eq!(reg.reconstruct(i, &vec![bar_name]).unwrap(), selected("MyApp", "Bar", "Bar"));
}

#[test]
fn build_produces_the_parser_tree() {
    let (reg, i) = my_app();
    let node = reg.app(i, &package());
    assert_eq!(node.name, "myapp");
    assert_eq!(node.about, Some("My sample application".to_string()));
    assert_eq!(
        node.settings,
        vec!["VersionlessSubcommands".to_string(), "SubcommandRequiredElseHelp".to_string()]
    );
    assert_eq!(node.subcommands.len(), 2);
    assert_eq!(node.subcommands[0].about, Some("Foo app".to_string()));
    assert_eq!(node.subcommands[1].about, Some("Bar app".to_string()));
    assert!(node.subcommands[1].subcommands.is_empty());
}

#[test]
fn payload_about_replaces_member_help() {
    let mut reg = Registry::new();
    let pkg = package();
    reg.derive_clap_app(&record("Leaf", vec![])).unwrap();
    let def = TypeDef {
        ident: "Top".to_string(),
        attrs: vec![],
        body: Body::Enum(vec![member("Run", vec![kv("help", "runs")], "Leaf")]),
    };
    let i = reg.derive_clap_app(&def).unwrap();
    let node = reg.app(i, &pkg);
    assert_eq!(node.name, "clap_derive");
    assert_eq!(node.subcommands[0].name, "run");
    assert_eq!(node.subcommands[0].about, Some("a schema compiler".to_string()));
}

#[test]
fn generating_twice_gives_identical_trees() {
    let (reg, i) = my_app();
    let a = reg.app(i, &package());
    let b = reg.app(i, &package());
    assert_eq!(format!("{:?}", a), format!("{:?}", b));
    let (reg2, j) = my_app();
    let c = reg2.app(j, &package());
    assert_eq!(format!("{:?}", a), format!("{:?}", c));
}

#[test]
fn member_with_two_fields_is_unsupported() {
    let def = TypeDef {
        ident: "G".to_string(),
        attrs: vec![kv("bogus", "x")],
        body: Body::Enum(vec![
            member("A", vec![], "A"),
            VariantDef {
                ident: "B".to_string(),
                attrs: vec![],
                fields: Fields::Tuple(vec!["X".to_string(), "Y".to_string()]),
            },
        ]),
    };
    let e = SchemaNode::new(&def).err().unwrap();
    assert_eq!(e, SchemaError::UnsupportedMemberShape("B".to_string()));
}

#[test]
fn unit_member_is_unsupported() {
    let def = TypeDef {
        ident: "G".to_string(),
        attrs: vec![],
        body: Body::Enum(vec![VariantDef {
            ident: "U".to_string(),
            attrs: vec![],
            fields: Fields::Unit,
        }]),
    };
    let e = SchemaNode::new(&def).err().unwrap();
    assert_eq!(e, SchemaError::UnsupportedMemberShape("U".to_string()));
}

#[test]
fn tuple_record_is_unsupported() {
    let def = TypeDef {
        ident: "T".to_string(),
        attrs: vec![],
        body: Body::Struct(Fields::Tuple(vec!["u8".to_string()])),
    };
    let e = SchemaNode::new(&def).err().unwrap();
    assert_eq!(e, SchemaError::UnsupportedTopLevelShape("T".to_string()));
}

#[test]
fn named_record_is_a_leaf() {
    let def = TypeDef {
        ident: "R".to_string(),
        attrs: vec![kv("name", "r")],
        body: Body::Struct(Fields::Named(vec!["u8".to_string(), "String".to_string()])),
    };
    match SchemaNode::new(&def).unwrap() {
        SchemaNode::Leaf(a) => {
            assert_eq!(a.ident, "R");
            assert_eq!(a.attrs.name, Some("r".to_string()));
        }
        SchemaNode::Group(_) => panic!("a record is a leaf"),
    }
}

#[test]
fn empty_union_is_rejected() {
    let def = TypeDef { ident: "E".to_string(), attrs: vec![], body: Body::Enum(vec![]) };
    let e = SchemaNode::new(&def).err().unwrap();
    assert_eq!(e, SchemaError::EmptyGroup("E".to_string()));
}

#[test]
fn duplicate_member_names_are_rejected() {
    let def = TypeDef {
        ident: "G".to_string(),
        attrs: vec![],
        body: Body::Enum(vec![
            member("Foo", vec![], "A"),
            member("Other", vec![kv("name", "foo")], "B"),
        ]),
    };
    let e = SchemaNode::new(&def).err().unwrap();
    assert_eq!(e, SchemaError::DuplicateMemberName("foo".to_string()));
}

#[test]
fn attribute_errors_are_attributed() {
    let def = TypeDef {
        ident: "G".to_string(),
        attrs: vec![kv("title", "x")],
        body: Body::Enum(vec![member("A", vec![], "A")]),
    };
    let e = SchemaNode::new(&def).err().unwrap();
    assert_eq!(e, SchemaError::Attribute(AttrError::UnknownAttributeKey("title".to_string())));
    let def = TypeDef {
        ident: "G".to_string(),
        attrs: vec![],
        body: Body::Enum(vec![member("A", vec![], "A"), member("B", vec![other("name", "1")], "B")]),
    };
    let e = SchemaNode::new(&def).err().unwrap();
    assert_eq!(
        e,
        SchemaError::MemberAttribute(
            "B".to_string(),
            AttrError::InvalidAttributeValue("name".to_string())
        )
    );
}

#[test]
fn registration_resolves_payload_types() {
    let mut reg = Registry::new();
    let def = TypeDef {
        ident: "G".to_string(),
        attrs: vec![],
        body: Body::Enum(vec![member("A", vec![], "Missing")]),
    };
    let e = reg.derive_clap_app(&def).err().unwrap();
    assert_eq!(e, SchemaError::UnknownPayloadType("Missing".to_string()));
    assert_eq!(reg.len(), 0);
    reg.derive_clap_app(&record("Missing", vec![])).unwrap();
    let e = reg.derive_clap_app(&record("Missing", vec![])).err().unwrap();
    assert_eq!(e, SchemaError::DuplicateType("Missing".to_string()));
    assert_eq!(reg.derive_clap_app(&def).unwrap(), 1);
    assert_eq!(reg.position(&"G".to_string()), Some(1));
    assert_eq!(reg.position(&"H".to_string()), None);
}

#[test]
fn nested_groups_dispatch_recursively() {
    let mut reg = Registry::new();
    let pkg = package();
    reg.derive_clap_app(&record("Leaf", vec![kv("about", "leaf")])).unwrap();
    let inner = TypeDef {
        ident: "Inner".to_string(),
        attrs: vec![kv("name", "inner")],
        body: Body::Enum(vec![member("Go", vec![], "Leaf")]),
    };
    reg.derive_clap_app(&inner).unwrap();
    let outer = TypeDef {
        ident: "Outer".to_string(),
        attrs: vec![kv("name", "outer")],
        body: Body::Enum(vec![member("Nest", vec![], "Inner")]),
    };
    let i = reg.derive_clap_app(&outer).unwrap();
    let node = reg.app(i, &pkg);
    assert_eq!(node.subcommands[0].name, "nest");
    assert_eq!(node.subcommands[0].subcommands[0].name, "go");
    let v = reg.get_matches_from(i, &pkg, args(&["outer", "nest", "go"])).unwrap();
    let expected = Value::Variant {
        ty: "Outer".to_string(),
        variant: "Nest".to_string(),
        payload: Box::new(selected("Inner", "Go", "Leaf")),
    };
    assert_eq!(v, expected);
    let w = reg.get_matches_from(i, &pkg, args(&["outer", "nest"]));
    assert_eq!(
        w.err().map(|e| format!("{:?}", e)),
        Some(format!("{:?}", CliError::Dispatch(DispatchError::UnreachableDispatch("Inner".to_string()))))
    );
}

#[test]
fn unmatched_selection_cannot_dispatch() {
    let (reg, i) = my_app();
    let e = reg.reconstruct(i, &vec!["nope".to_string()]).err().unwrap();
    assert_eq!(e, DispatchError::UnreachableDispatch("MyApp".to_string()));
    let e = reg.reconstruct(i, &vec![]).err().unwrap();
    assert_eq!(e, DispatchError::UnreachableDispatch("MyApp".to_string()));
    let leaf = reg.reconstruct(0, &vec!["ignored".to_string()]).unwrap();
    assert_eq!(leaf, Value::Record("Foo".to_string()));
}

#[test]
fn unknown_setting_is_reported() {
    let mut reg = Registry::new();
    let i = reg.derive_clap_app(&record("R", vec![word("NoSuchSetting")])).unwrap();
    let r = reg.get_matches_from(i, &package(), args(&["r"]));
    match r {
        Err(CliError::UnknownSetting(s)) => assert_eq!(s, "NoSuchSetting"),
        other => panic!("expected an unknown setting, got {:?}", other),
    }
    let j = reg.derive_clap_app(&record("S", vec![word("ColoredHelp")])).unwrap();
    let v = reg.get_matches_from(j, &package(), args(&["s"])).unwrap();
    assert_eq!(v, Value::Record("S".to_string()));
}

#[test]
fn clap_app_carries_the_tree_and_matches_are_read_back() {
    let (reg, i) = my_app();
    let node = reg.app(i, &package());
    let app = clap_derive::to_clap(&node).unwrap();
    let matches = app.get_matches_from_safe(args(&["myapp", "hoge"])).unwrap();
    assert_eq!(clap_derive::selected_names(&matches), vec!["hoge".to_string()]);
    assert_eq!(reg.rebuild(i, &matches).unwrap(), selected("MyApp", "Bar", "Bar"));
    let app = clap_derive::to_clap(&node).unwrap();
    let e = app.get_matches_from_safe(args(&["myapp"])).err().unwrap();
    assert_eq!(e.kind, clap::ErrorKind::MissingArgumentOrSubcommand);
    let app = clap_derive::to_clap(&node).unwrap();
    let help = app.get_matches_from_safe(args(&["myapp", "--help"])).err().unwrap();
    assert!(help.message.contains("My sample application"));
    assert!(help.message.contains("hoge"));
}

#[test]
fn nested_matches_name_every_level() {
    let mut reg = Registry::new();
    reg.derive_clap_app(&record("Leaf", vec![])).unwrap();
    let inner = TypeDef {
        ident: "Inner".to_string(),
        attrs: vec![kv("name", "inner")],
        body: Body::Enum(vec![member("Go", vec![], "Leaf")]),
    };
    reg.derive_clap_app(&inner).unwrap();
    let outer = TypeDef {
        ident: "Outer".to_string(),
        attrs: vec![kv("name", "outer")],
        body: Body::Enum(vec![member("Nest", vec![], "Inner")]),
    };
    let i = reg.derive_clap_app(&outer).unwrap();
    let node = reg.app(i, &package());
    let app = clap_derive::to_clap(&node).unwrap();
    let matches = app.get_matches_from_safe(args(&["outer", "nest", "go"])).unwrap();
    assert_eq!(
        clap_derive::selected_names(&matches),
        vec!["nest".to_string(), "go".to_string()]
    );
}

#[test]
fn only_clap_list_blocks_contribute_items() {
    let blocks = vec![
        clap_derive::AnnotationBlock { name: "derive".to_string(), items: Some(vec![word("Debug")]) },
        clap_derive::AnnotationBlock { name: "clap".to_string(), items: Some(vec![kv("name", "a")]) },
        clap_derive::AnnotationBlock { name: "clap".to_string(), items: None },
        clap_derive::AnnotationBlock { name: "clap".to_string(), items: Some(vec![word("S")]) },
    ];
    let items = clap_derive::clap_items(&blocks);
    assert_eq!(items.len(), 2);
    assert_eq!(items[0].key, "name");
    assert_eq!(items[1].key, "S");
    assert!(items[1].value.is_none());
}
