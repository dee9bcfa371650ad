use blockforge::scenario::{
    block_spec_from_fields, blocks_spec_from_objects, gen_comment, BlockSpec, BlocksSpec,
};

#[test]
fn block_spec_without_flags_needs_nothing() {
    let spec = BlockSpec { duplicate_m2: false };
    assert!(!spec.requires_m1());
    assert_eq!(spec.n_reasons_invalid(), 0);
}

#[test]
fn duplicate_m2_needs_a_prior_declaration() {
    let spec = BlockSpec { duplicate_m2: true };
    assert!(spec.requires_m1());
    assert_eq!(spec.n_reasons_invalid(), 1);
}

#[test]
fn empty_scenario_needs_no_declaration() {
    assert!(!BlocksSpec(vec![]).requires_m1());
}

#[test]
fn scenario_needs_declaration_if_any_block_does() {
    let plain = BlockSpec { duplicate_m2: false };
    let duplicate = BlockSpec { duplicate_m2: true };
    assert!(!BlocksSpec(vec![plain, plain]).requires_m1());
    assert!(BlocksSpec(vec![plain, duplicate]).requires_m1());
    assert!(BlocksSpec(vec![duplicate, plain]).requires_m1());
    assert!(BlocksSpec(vec![plain, plain, plain, duplicate]).requires_m1());
}

#[test]
fn comment_of_a_valid_block() {
    let comment = gen_comment(&BlockSpec { duplicate_m2: false });
    assert_eq!(comment, "Generate a block with 0 invalid conditions:");
}

#[test]
fn comment_of_a_duplicate_m2_block() {
    let comment = gen_comment(&BlockSpec { duplicate_m2: true });
    assert_eq!(
        comment,
        "Generate a block with 1 invalid conditions:\n- 1 duplicate M2 message in coinbase outputs"
    );
}

fn parse_error(text: &str) -> (String, String) {
    let error = BlocksSpec::parse(text).unwrap_err();
    (error.path, error.message)
}

#[test]
fn parse_an_empty_scenario() {
    assert_eq!(BlocksSpec::parse("[]").unwrap().0, vec![]);
}

#[test]
fn parse_flags_in_order() {
    let text = r#"[{"duplicate_m2": true}, {"duplicate_m2": false}, {"duplicate_m2": true}]"#;
    let spec = BlocksSpec::parse(text).unwrap();
    assert_eq!(
        spec.0,
        vec![
            BlockSpec { duplicate_m2: true },
            BlockSpec { duplicate_m2: false },
            BlockSpec { duplicate_m2: true },
        ]
    );
    assert!(spec.requires_m1());
}

#[test]
fn a_flag_that_is_left_out_is_false() {
    let spec = BlocksSpec::parse(r#"[{}, {"duplicate_m2": true}, {}]"#).unwrap();
    assert_eq!(
        spec.0,
        vec![
            BlockSpec { duplicate_m2: false },
            BlockSpec { duplicate_m2: true },
            BlockSpec { duplicate_m2: false },
        ]
    );
}

#[test]
fn from_str_reads_a_scenario() {
    let spec: BlocksSpec = "[{\"duplicate_m2\":true}]".parse().unwrap();
    assert_eq!(spec.0, vec![BlockSpec { duplicate_m2: true }]);
    assert!("[{\"other\":true}]".parse::<BlocksSpec>().is_err());
}

#[test]
fn unknown_field_is_rejected_with_its_path() {
    let (path, message) = parse_error(r#"[{"duplicate_m2": true}, {"duplicate_m3": true}]"#);
    assert_eq!(path, "[1].duplicate_m3");
    assert_eq!(message, "unknown field `duplicate_m3`, expected `duplicate_m2`");
}

#[test]
fn first_unknown_field_of_the_first_such_object_is_reported() {
    let text = r#"[{}, {}, {"duplicate_m2": false, "zeta": true, "alpha": false}, {"beta": true}]"#;
    let (path, message) = parse_error(text);
    assert_eq!(path, "[2].alpha");
    assert_eq!(message, "unknown field `alpha`, expected `duplicate_m2`");
}

#[test]
fn unknown_field_at_a_large_index() {
    let mut text = String::from("[");
    for _ in 0..120 {
        text.push_str("{},");
    }
    text.push_str("{\"x\":false}]");
    assert_eq!(parse_error(&text).0, "[120].x");
}

#[test]
fn flag_of_the_wrong_type_is_rejected_with_its_path() {
    let (path, message) = parse_error(r#"[{"duplicate_m2": false}, {"duplicate_m2": 1}]"#);
    assert_eq!(path, "[1].duplicate_m2");
    assert!(message.contains("expected a boolean"), "{}", message);
}

#[test]
fn element_that_is_no_object_is_rejected_with_its_path() {
    let (path, message) = parse_error(r#"[{}, true]"#);
    assert_eq!(path, "[1]");
    assert!(message.contains("expected a map"), "{}", message);
}

#[test]
fn text_that_is_no_list_is_rejected() {
    assert!(BlocksSpec::parse("").is_err());
    assert!(BlocksSpec::parse("{").is_err());
    assert!(BlocksSpec::parse("[{]").is_err());
    assert!(BlocksSpec::parse("[{\"duplicate_m2\": tru}]").is_err());
    assert!(BlocksSpec::parse("{\"duplicate_m2\": true}").is_err());
    assert!(BlocksSpec::parse("7").is_err());
}

#[test]
fn fields_give_a_block_spec() {
    let field = |name: &str, flag: bool| (name.to_owned(), flag);
    assert_eq!(block_spec_from_fields(0, &vec![]), Ok(BlockSpec { duplicate_m2: false }));
    assert_eq!(
        block_spec_from_fields(0, &vec![field("duplicate_m2", true)]),
        Ok(BlockSpec { duplicate_m2: true })
    );
    // where a flag is given twice the last one counts
    assert_eq!(
        block_spec_from_fields(
            0,
            &vec![field("duplicate_m2", true), field("duplicate_m2", false)]
        ),
        Ok(BlockSpec { duplicate_m2: false })
    );
    let error =
        block_spec_from_fields(41, &vec![field("duplicate_m2", true), field("Duplicate_m2", true)])
            .unwrap_err();
    assert_eq!(error.path, "[41].Duplicate_m2");
    assert_eq!(error.message, "unknown field `Duplicate_m2`, expected `duplicate_m2`");
    let error = block_spec_from_fields(0, &vec![field("", false)]).unwrap_err();
    assert_eq!(error.path, "[0].");
}

#[test]
fn objects_give_a_scenario() {
    let field = |name: &str, flag: bool| (name.to_owned(), flag);
    assert_eq!(blocks_spec_from_objects(&vec![]).unwrap().0, vec![]);
    let objects = vec![vec![], vec![field("duplicate_m2", true)], vec![]];
    assert_eq!(
        blocks_spec_from_objects(&objects).unwrap().0,
        vec![
            BlockSpec { duplicate_m2: false },
            BlockSpec { duplicate_m2: true },
            BlockSpec { duplicate_m2: false },
        ]
    );
    let objects = vec![vec![], vec![field("a", true)], vec![field("b", true)]];
    assert_eq!(blocks_spec_from_objects(&objects).unwrap_err().path, "[1].a");
}

#[test]
fn text_after_the_list_is_rejected() {
    for text in ["[] x", "[{}] trailing", "[{\"duplicate_m2\": true}]]", "[][]", "[],", "[] 0"] {
        let (path, message) = parse_error(text);
        assert_eq!(path, ".", "{}", text);
        assert!(message.contains("trailing characters"), "{}: {}", text, message);
        assert!(text.parse::<BlocksSpec>().is_err());
    }
}

#[test]
fn whitespace_around_the_list_is_accepted() {
    assert_eq!(BlocksSpec::parse(" [] ").unwrap().0, vec![]);
    assert_eq!(BlocksSpec::parse("[]\n").unwrap().0, vec![]);
    assert_eq!(
        BlocksSpec::parse("\t[ { \"duplicate_m2\" : true } ]\r\n  ").unwrap().0,
        vec![BlockSpec { duplicate_m2: true }]
    );
}

#[test]
fn error_inside_the_list_keeps_its_path() {
    let (path, message) = parse_error("[{}, {\"duplicate_m2\": null}] x");
    assert_eq!(path, "[1].duplicate_m2");
    assert!(message.contains("expected a boolean"), "{}", message);
}
