use scratchc::hydrate::{build_block, build_block_expr, hydrate_to_depth, HydrateError};
use scratchc::json::Json;
use scratchc::project::{BlockInfo, MutationInfo, TargetInfo};
use scratchc::scratch::{Block, BlockExpression, BlockOp, Target, Value};

fn text(s: &str) -> Json {
    Json::Str(s.to_owned())
}

fn literal(kind: u64, value: &str) -> Json {
    Json::Array(vec![Json::Number(Some(1)), Json::Array(vec![Json::Number(Some(kind)), text(value)])])
}

fn variable(name: &str, id: &str) -> Json {
    Json::Array(vec![
        Json::Number(Some(3)),
        Json::Array(vec![Json::Number(Some(12)), text(name), text(id)]),
        Json::Array(vec![Json::Number(Some(10)), text("")]),
    ])
}

fn reference(id: &str) -> Json {
    Json::Array(vec![Json::Number(Some(2)), text(id)])
}

fn block(opcode: &str) -> BlockInfo {
    BlockInfo {
        opcode: opcode.to_owned(),
        next: None,
        parent: None,
        inputs: Vec::new(),
        fields: Vec::new(),
        mutation: None,
        shadow: false,
        top_level: false,
    }
}

fn with_input(mut b: BlockInfo, slot: &str, value: Json) -> BlockInfo {
    b.inputs.push((slot.to_owned(), value));
    b
}

fn with_field(mut b: BlockInfo, slot: &str, value: Json) -> BlockInfo {
    b.fields.push((slot.to_owned(), value));
    b
}

fn with_next(mut b: BlockInfo, id: &str) -> BlockInfo {
    b.next = Some(id.to_owned());
    b
}

fn top(mut b: BlockInfo) -> BlockInfo {
    b.top_level = true;
    b
}

fn target(blocks: Vec<(&str, BlockInfo)>) -> TargetInfo {
    TargetInfo {
        is_stage: false,
        name: "Sprite1".to_owned(),
        variables: vec![("var-x".to_owned(), ("x".to_owned(), 0))],
        lists: Json::Object(Vec::new()),
        broadcasts: Json::Object(Vec::new()),
        blocks: blocks.into_iter().map(|(id, b)| (id.to_owned(), b)).collect(),
        comments: Json::Object(Vec::new()),
    }
}

fn number_text(v: &Value) -> &str {
    match v {
        Value::Number(t) => t,
        other => panic!("no number: {:?}", other),
    }
}

#[test]
fn number_kinds_hydrate_to_number_literals() {
    for kind in [4u64, 5, 6, 7] {
        let v = Value::hydrate(&literal(kind, "10"), &Vec::new()).unwrap();
        assert_eq!(number_text(&v), "10");
    }
}

#[test]
fn kind_ten_hydrates_to_a_string_literal() {
    let v = Value::hydrate(&literal(10, "hello"), &Vec::new()).unwrap();
    assert!(matches!(v, Value::String(s) if s == "hello"));
}

#[test]
fn kind_twelve_hydrates_to_a_load_of_the_third_element() {
    let v = Value::hydrate(&variable("x", "var-x"), &Vec::new()).unwrap();
    assert!(matches!(v, Value::Load(id) if id == "var-x"));
}

#[test]
fn other_literal_kinds_are_bad_references() {
    for kind in [0u64, 3, 8, 9, 11, 13] {
        assert_eq!(
            Value::hydrate(&literal(kind, "x"), &Vec::new()).unwrap_err(),
            HydrateError::BadReference
        );
    }
    let no_kind = Json::Array(vec![Json::Number(Some(1)), Json::Array(Vec::new())]);
    assert_eq!(Value::hydrate(&no_kind, &Vec::new()).unwrap_err(), HydrateError::BadReference);
}

#[test]
fn a_literal_without_its_text_is_a_missing_input() {
    let short = Json::Array(vec![Json::Number(Some(1)), Json::Array(vec![Json::Number(Some(4))])]);
    assert_eq!(Value::hydrate(&short, &Vec::new()).unwrap_err(), HydrateError::MissingInput);
    let load = Json::Array(vec![
        Json::Number(Some(3)),
        Json::Array(vec![Json::Number(Some(12)), text("x")]),
    ]);
    assert_eq!(Value::hydrate(&load, &Vec::new()).unwrap_err(), HydrateError::MissingInput);
    let not_text = Json::Array(vec![
        Json::Number(Some(1)),
        Json::Array(vec![Json::Number(Some(10)), Json::Number(Some(3))]),
    ]);
    assert_eq!(Value::hydrate(&not_text, &Vec::new()).unwrap_err(), HydrateError::MissingInput);
}

#[test]
fn a_payload_that_names_no_block_is_a_bad_reference() {
    assert_eq!(
        Value::hydrate(&reference("nowhere"), &Vec::new()).unwrap_err(),
        HydrateError::BadReference
    );
    let null = Json::Array(vec![Json::Number(Some(1)), Json::Null]);
    assert_eq!(Value::hydrate(&null, &Vec::new()).unwrap_err(), HydrateError::BadReference);
    assert_eq!(Value::hydrate(&Json::Null, &Vec::new()).unwrap_err(), HydrateError::BadReference);
    assert_eq!(
        Value::hydrate(&Json::Array(vec![Json::Number(Some(1))]), &Vec::new()).unwrap_err(),
        HydrateError::BadReference
    );
}

#[test]
fn a_referenced_reporter_becomes_an_expression() {
    let blocks = vec![(
        "sum".to_owned(),
        with_input(with_input(block("operator_add"), "NUM1", literal(4, "1")), "NUM2", literal(4, "2")),
    )];
    let v = Value::hydrate(&reference("sum"), &blocks).unwrap();
    match v {
        Value::Expression(e) => match *e {
            BlockExpression::OperatorAdd { left, right } => {
                assert_eq!(number_text(&left), "1");
                assert_eq!(number_text(&right), "2");
            }
            other => panic!("{:?}", other),
        },
        other => panic!("{:?}", other),
    }
}

#[test]
fn reporter_opcodes_map_to_their_expressions() {
    let pair = |opcode: &str, a: &str, b: &str| {
        with_input(with_input(block(opcode), a, literal(4, "1")), b, literal(4, "2"))
    };
    let none = Vec::new();
    assert!(matches!(
        build_block_expr(&pair("operator_equals", "OPERAND1", "OPERAND2"), &none, 0).unwrap(),
        BlockExpression::OperatorEquals { .. }
    ));
    assert!(matches!(
        build_block_expr(&pair("operator_gt", "OPERAND1", "OPERAND2"), &none, 0).unwrap(),
        BlockExpression::OperatorGT { .. }
    ));
    assert!(matches!(
        build_block_expr(&pair("operator_add", "NUM1", "NUM2"), &none, 0).unwrap(),
        BlockExpression::OperatorAdd { .. }
    ));
    assert!(matches!(
        build_block_expr(&pair("operator_subtract", "NUM1", "NUM2"), &none, 0).unwrap(),
        BlockExpression::OperatorSubtract { .. }
    ));
    let argument = with_field(
        block("argument_reporter_string_number"),
        "VALUE",
        Json::Array(vec![text("n"), Json::Null]),
    );
    assert!(matches!(
        build_block_expr(&argument, &none, 0).unwrap(),
        BlockExpression::ArgumentReporterStringNumber { name } if name == "n"
    ));
}

#[test]
fn reporter_errors_name_what_is_missing() {
    let none = Vec::new();
    assert_eq!(
        build_block_expr(&block("operator_mod"), &none, 3).unwrap_err(),
        HydrateError::UnknownOpcode
    );
    assert_eq!(
        build_block_expr(&block("looks_say"), &none, 3).unwrap_err(),
        HydrateError::UnknownOpcode
    );
    assert_eq!(
        build_block_expr(&block("operator_add"), &none, 3).unwrap_err(),
        HydrateError::MissingInput
    );
    let half = with_input(block("operator_gt"), "OPERAND1", literal(4, "1"));
    assert_eq!(build_block_expr(&half, &none, 3).unwrap_err(), HydrateError::MissingInput);
    assert_eq!(
        build_block_expr(&block("argument_reporter_string_number"), &none, 3).unwrap_err(),
        HydrateError::MissingField
    );
    let empty_field =
        with_field(block("argument_reporter_string_number"), "VALUE", Json::Array(Vec::new()));
    assert_eq!(build_block_expr(&empty_field, &none, 3).unwrap_err(), HydrateError::MissingField);
}

#[test]
fn the_first_failing_operand_decides_the_error() {
    let b = with_input(
        with_input(block("operator_add"), "NUM1", reference("nowhere")),
        "NUM2",
        Json::Array(vec![Json::Number(Some(1)), Json::Array(vec![Json::Number(Some(4))])]),
    );
    assert_eq!(build_block_expr(&b, &Vec::new(), 3).unwrap_err(), HydrateError::BadReference);
    let c = with_input(
        with_input(
            block("operator_add"),
            "NUM1",
            Json::Array(vec![Json::Number(Some(1)), Json::Array(vec![Json::Number(Some(4))])]),
        ),
        "NUM2",
        reference("nowhere"),
    );
    assert_eq!(build_block_expr(&c, &Vec::new(), 3).unwrap_err(), HydrateError::MissingInput);
}

#[test]
fn statement_opcodes_map_to_their_ops() {
    let blocks = vec![("body".to_owned(), block("event_whenflagclicked"))];
    let op = |b: BlockInfo| build_block(&b, &blocks, 2).unwrap().op;
    assert!(matches!(
        op(with_input(
            with_input(block("control_repeat"), "TIMES", literal(6, "3")),
            "SUBSTACK",
            reference("body")
        )),
        BlockOp::ControlRepeat { .. }
    ));
    assert!(matches!(
        op(with_input(block("control_forever"), "SUBSTACK", reference("body"))),
        BlockOp::ControlForever(_)
    ));
    assert!(matches!(
        op(with_input(block("control_wait"), "DURATION", literal(5, "1"))),
        BlockOp::ControlWait(Value::Number(_))
    ));
    assert!(matches!(
        op(with_field(block("control_stop"), "STOP_OPTION", Json::Array(vec![text("all"), Json::Null]))),
        BlockOp::ControlStopAll
    ));
    assert!(matches!(
        op(with_field(
            block("control_stop"),
            "STOP_OPTION",
            Json::Array(vec![text("this script"), Json::Null])
        )),
        BlockOp::ControlStopScript
    ));
    assert!(matches!(
        op(with_input(block("looks_say"), "MESSAGE", literal(10, "hi"))),
        BlockOp::LooksSay(Value::String(_))
    ));
    assert!(matches!(op(block("event_whenflagclicked")), BlockOp::EventWhenFlagClicked));
    let set = op(with_input(
        with_field(block("data_setvariableto"), "VARIABLE", Json::Array(vec![text("x"), text("var-x")])),
        "VALUE",
        literal(10, "0"),
    ));
    assert!(matches!(set, BlockOp::DataSetVariableTo { id, .. } if id == "var-x"));
    let change = op(with_input(
        with_field(
            block("data_changevariableby"),
            "VARIABLE",
            Json::Array(vec![text("x"), text("var-x")]),
        ),
        "VALUE",
        literal(4, "1"),
    ));
    assert!(matches!(change, BlockOp::DataChangeVariableBy { id, .. } if id == "var-x"));
}

#[test]
fn if_else_takes_its_alternative_only_where_the_slot_is_there() {
    let blocks = vec![
        ("yes".to_owned(), with_input(block("looks_say"), "MESSAGE", literal(10, "yes"))),
        ("no".to_owned(), with_input(block("looks_say"), "MESSAGE", literal(10, "no"))),
        (
            "cond".to_owned(),
            with_input(
                with_input(block("operator_gt"), "OPERAND1", literal(4, "2")),
                "OPERAND2",
                literal(4, "1"),
            ),
        ),
    ];
    let without = with_input(
        with_input(block("control_if_else"), "CONDITION", reference("cond")),
        "SUBSTACK",
        reference("yes"),
    );
    match build_block(&without, &blocks, 3).unwrap().op {
        BlockOp::ControlIfElse { condition, alternative, .. } => {
            assert!(matches!(condition, Value::Expression(_)));
            assert!(alternative.is_none());
        }
        other => panic!("{:?}", other),
    }
    let with = with_input(
        with_input(
            with_input(block("control_if_else"), "CONDITION", reference("cond")),
            "SUBSTACK",
            reference("yes"),
        ),
        "SUBSTACK2",
        reference("no"),
    );
    match build_block(&with, &blocks, 3).unwrap().op {
        BlockOp::ControlIfElse { consequent, alternative, .. } => {
            assert!(matches!(consequent.op, BlockOp::LooksSay(Value::String(ref s)) if s == "yes"));
            let alternative = alternative.unwrap();
            assert!(matches!(alternative.op, BlockOp::LooksSay(Value::String(ref s)) if s == "no"));
        }
        other => panic!("{:?}", other),
    }
    let dangling = with_input(
        with_input(
            with_input(block("control_if_else"), "CONDITION", reference("cond")),
            "SUBSTACK",
            reference("yes"),
        ),
        "SUBSTACK2",
        Json::Array(vec![Json::Number(Some(2)), Json::Null]),
    );
    assert_eq!(build_block(&dangling, &blocks, 3).unwrap_err(), HydrateError::BadReference);
}

#[test]
fn statement_errors_name_what_is_missing() {
    let none = Vec::new();
    assert_eq!(build_block(&block("motion_movesteps"), &none, 3).unwrap_err(), HydrateError::UnknownOpcode);
    assert_eq!(build_block(&block("operator_add"), &none, 3).unwrap_err(), HydrateError::UnknownOpcode);
    assert_eq!(build_block(&block("control_repeat"), &none, 3).unwrap_err(), HydrateError::MissingInput);
    let no_body = with_input(block("control_repeat"), "TIMES", literal(6, "3"));
    assert_eq!(build_block(&no_body, &none, 3).unwrap_err(), HydrateError::MissingInput);
    assert_eq!(build_block(&block("control_forever"), &none, 3).unwrap_err(), HydrateError::MissingInput);
    assert_eq!(build_block(&block("control_wait"), &none, 3).unwrap_err(), HydrateError::MissingInput);
    assert_eq!(build_block(&block("looks_say"), &none, 3).unwrap_err(), HydrateError::MissingInput);
    assert_eq!(build_block(&block("control_stop"), &none, 3).unwrap_err(), HydrateError::MissingField);
    assert_eq!(build_block(&block("data_setvariableto"), &none, 3).unwrap_err(), HydrateError::MissingField);
    let no_id = with_input(
        with_field(block("data_setvariableto"), "VARIABLE", Json::Array(vec![text("x")])),
        "VALUE",
        literal(4, "1"),
    );
    assert_eq!(build_block(&no_id, &none, 3).unwrap_err(), HydrateError::MissingField);
    let no_value =
        with_field(block("data_changevariableby"), "VARIABLE", Json::Array(vec![text("x"), text("id")]));
    assert_eq!(build_block(&no_value, &none, 3).unwrap_err(), HydrateError::MissingInput);
    assert_eq!(build_block(&block("procedures_call"), &none, 3).unwrap_err(), HydrateError::MissingField);
    let other_stop = with_field(
        block("control_stop"),
        "STOP_OPTION",
        Json::Array(vec![text("other scripts in sprite"), Json::Null]),
    );
    assert_eq!(build_block(&other_stop, &none, 3).unwrap_err(), HydrateError::UnknownOpcode);
    let gone = with_next(block("event_whenflagclicked"), "nowhere");
    assert_eq!(build_block(&gone, &none, 3).unwrap_err(), HydrateError::BadReference);
    let body_gone = with_input(block("control_forever"), "SUBSTACK", reference("nowhere"));
    assert_eq!(build_block(&body_gone, &none, 3).unwrap_err(), HydrateError::BadReference);
}

#[test]
fn a_call_takes_its_operands_in_the_order_of_the_argument_ids() {
    let mut call = block("procedures_call");
    call.mutation = Some(MutationInfo {
        argumentnames: None,
        argumentids: vec!["second".to_owned(), "first".to_owned()],
        proccode: "f %s %s".to_owned(),
    });
    let call = with_input(with_input(call, "first", literal(4, "1")), "second", literal(4, "2"));
    match build_block(&call, &Vec::new(), 0).unwrap().op {
        BlockOp::ProceduresCall { proc, args } => {
            assert_eq!(proc, "f %s %s");
            assert_eq!(args.len(), 2);
            assert_eq!(number_text(&args[0]), "2");
            assert_eq!(number_text(&args[1]), "1");
        }
        other => panic!("{:?}", other),
    }
    let mut short = block("procedures_call");
    short.mutation = Some(MutationInfo {
        argumentnames: None,
        argumentids: vec!["a".to_owned(), "b".to_owned()],
        proccode: "f".to_owned(),
    });
    let short = with_input(short, "a", literal(4, "1"));
    assert_eq!(build_block(&short, &Vec::new(), 0).unwrap_err(), HydrateError::MissingInput);
}

fn chain_ops(b: &Block) -> Vec<String> {
    let mut out = Vec::new();
    let mut at = Some(b);
    while let Some(b) = at {
        out.push(match &b.op {
            BlockOp::LooksSay(Value::String(s)) => format!("say {}", s),
            BlockOp::ControlWait(Value::Number(n)) => format!("wait {}", n),
            BlockOp::EventWhenFlagClicked => "flag".to_owned(),
            BlockOp::ControlStopAll => "stop all".to_owned(),
            other => format!("{:?}", other),
        });
        at = b.next.as_deref();
    }
    out
}

#[test]
fn say_for_seconds_becomes_say_then_wait_then_the_rest() {
    let blocks = vec![
        (
            "a".to_owned(),
            with_next(
                with_input(
                    with_input(block("looks_sayforsecs"), "MESSAGE", literal(10, "hi")),
                    "SECS",
                    literal(4, "2"),
                ),
                "b",
            ),
        ),
        ("b".to_owned(), with_input(block("looks_say"), "MESSAGE", literal(10, "bye"))),
    ];
    let built = build_block(&blocks[0].1, &blocks, 2).unwrap();
    assert_eq!(chain_ops(&built), vec!["say hi", "wait 2", "say bye"]);
}

#[test]
fn say_for_seconds_equals_a_say_block_followed_by_a_wait_block() {
    let blocks = vec![
        (
            "combined".to_owned(),
            with_next(
                with_input(
                    with_input(block("looks_sayforsecs"), "MESSAGE", literal(10, "hi")),
                    "SECS",
                    literal(4, "2"),
                ),
                "rest",
            ),
        ),
        (
            "say".to_owned(),
            with_next(with_input(block("looks_say"), "MESSAGE", literal(10, "hi")), "wait"),
        ),
        (
            "wait".to_owned(),
            with_next(with_input(block("control_wait"), "DURATION", literal(4, "2")), "rest"),
        ),
        ("rest".to_owned(), block("event_whenflagclicked")),
    ];
    let combined = build_block(&blocks[0].1, &blocks, 4).unwrap();
    let pair = build_block(&blocks[1].1, &blocks, 4).unwrap();
    assert_eq!(format!("{:?}", combined), format!("{:?}", pair));
    assert_eq!(chain_ops(&combined), vec!["say hi", "wait 2", "flag"]);
}

#[test]
fn say_for_seconds_without_its_seconds_is_a_missing_input() {
    let b = with_input(block("looks_sayforsecs"), "MESSAGE", literal(10, "hi"));
    assert_eq!(build_block(&b, &Vec::new(), 2).unwrap_err(), HydrateError::MissingInput);
}

#[test]
fn names_are_followed_no_deeper_than_asked() {
    let blocks = vec![
        ("a".to_owned(), with_next(block("event_whenflagclicked"), "b")),
        ("b".to_owned(), with_next(block("event_whenflagclicked"), "c")),
        ("c".to_owned(), block("event_whenflagclicked")),
    ];
    assert_eq!(chain_ops(&build_block(&blocks[0].1, &blocks, 2).unwrap()).len(), 3);
    assert_eq!(chain_ops(&build_block(&blocks[0].1, &blocks, 3).unwrap()).len(), 3);
    assert_eq!(build_block(&blocks[0].1, &blocks, 1).unwrap_err(), HydrateError::BadReference);
    assert_eq!(build_block(&blocks[0].1, &blocks, 0).unwrap_err(), HydrateError::BadReference);
    assert_eq!(
        hydrate_to_depth(&reference("a"), &blocks, 0).unwrap_err(),
        HydrateError::BadReference
    );
}

#[test]
fn a_dictionary_whose_names_run_in_a_circle_is_refused() {
    let t = target(vec![
        ("a", top(with_next(block("event_whenflagclicked"), "b"))),
        ("b", with_next(block("event_whenflagclicked"), "a")),
    ]);
    assert_eq!(Target::hydrate(t).unwrap_err(), HydrateError::BadReference);
    let own = target(vec![("a", top(with_input(block("control_forever"), "SUBSTACK", reference("a"))))]);
    assert_eq!(Target::hydrate(own).unwrap_err(), HydrateError::BadReference);
}

#[test]
fn a_chain_through_every_block_of_the_dictionary_is_hydrated() {
    let t = target(vec![
        ("c", block("control_stop")),
        ("a", top(with_next(block("event_whenflagclicked"), "b"))),
        ("b", with_next(with_input(block("looks_say"), "MESSAGE", literal(10, "x")), "c")),
    ]);
    let mut t = t;
    t.blocks[0].1.fields.push((
        "STOP_OPTION".to_owned(),
        Json::Array(vec![text("all"), Json::Null]),
    ));
    let hydrated = Target::hydrate(t).unwrap();
    assert_eq!(hydrated.scripts.len(), 1);
    assert_eq!(chain_ops(&hydrated.scripts[0]), vec!["flag", "say x", "stop all"]);
}

#[test]
fn scripts_come_in_the_order_of_the_dictionary() {
    let t = target(vec![
        ("s1", top(with_input(block("looks_say"), "MESSAGE", literal(10, "one")))),
        ("inner", with_input(block("looks_say"), "MESSAGE", literal(10, "inner"))),
        ("s2", top(with_input(block("looks_say"), "MESSAGE", literal(10, "two")))),
        ("s3", top(with_input(block("looks_say"), "MESSAGE", literal(10, "three")))),
    ]);
    let hydrated = Target::hydrate(t).unwrap();
    assert_eq!(hydrated.procedures.len(), 0);
    let said: Vec<Vec<String>> = hydrated.scripts.iter().map(chain_ops).collect();
    assert_eq!(said, vec![vec!["say one"], vec!["say two"], vec!["say three"]]);
    assert_eq!(hydrated.variables, vec![("var-x".to_owned(), ("x".to_owned(), 0))]);
}

fn definition(body: &str, prototype: &str) -> BlockInfo {
    top(with_next(with_input(block("procedures_definition"), "custom_block", reference(prototype)), body))
}

fn prototype(proccode: &str, names: Option<Vec<&str>>) -> BlockInfo {
    let mut b = block("procedures_prototype");
    b.shadow = true;
    b.mutation = Some(MutationInfo {
        argumentnames: names.map(|n| n.into_iter().map(|s| s.to_owned()).collect()),
        argumentids: Vec::new(),
        proccode: proccode.to_owned(),
    });
    b
}

#[test]
fn a_definition_gives_a_procedure_and_no_script() {
    let t = target(vec![
        ("def", definition("body", "proto")),
        ("proto", prototype("f %s %s", Some(vec!["a", "b"]))),
        ("body", with_input(block("looks_say"), "MESSAGE", reference("arg"))),
        (
            "arg",
            with_field(
                block("argument_reporter_string_number"),
                "VALUE",
                Json::Array(vec![text("a"), Json::Null]),
            ),
        ),
    ]);
    let hydrated = Target::hydrate(t).unwrap();
    assert_eq!(hydrated.scripts.len(), 0);
    assert_eq!(hydrated.procedures.len(), 1);
    let p = &hydrated.procedures[0];
    assert_eq!(p.id, "f %s %s");
    assert_eq!(p.arguments, vec!["a".to_owned(), "b".to_owned()]);
    assert!(matches!(p.body.op, BlockOp::LooksSay(Value::Expression(_))));
}

#[test]
fn definition_errors_name_what_is_missing() {
    let hydrate = |blocks| Target::hydrate(target(blocks)).unwrap_err();
    let mut bare = top(block("procedures_definition"));
    bare.inputs.push(("custom_block".to_owned(), reference("proto")));
    assert_eq!(
        hydrate(vec![("def", bare), ("proto", prototype("f", Some(vec![])))]),
        HydrateError::BadReference
    );
    assert_eq!(
        hydrate(vec![
            ("def", top(with_next(block("procedures_definition"), "body"))),
            ("body", block("event_whenflagclicked")),
        ]),
        HydrateError::MissingInput
    );
    assert_eq!(
        hydrate(vec![("def", definition("body", "nowhere")), ("body", block("event_whenflagclicked"))]),
        HydrateError::BadReference
    );
    assert_eq!(
        hydrate(vec![
            ("def", definition("body", "proto")),
            ("proto", block("procedures_prototype")),
            ("body", block("event_whenflagclicked")),
        ]),
        HydrateError::MissingField
    );
    assert_eq!(
        hydrate(vec![
            ("def", definition("body", "proto")),
            ("proto", prototype("f", None)),
            ("body", block("event_whenflagclicked")),
        ]),
        HydrateError::MissingField
    );
    assert_eq!(
        hydrate(vec![
            ("def", definition("body", "proto")),
            ("proto", prototype("f", Some(vec![]))),
            ("body", block("sensing_askandwait")),
        ]),
        HydrateError::UnknownOpcode
    );
}

#[test]
fn the_first_failing_entry_decides_the_error_of_a_target() {
    let t = target(vec![
        ("ok", top(block("event_whenflagclicked"))),
        ("bad", top(block("motion_movesteps"))),
        ("worse", top(with_next(block("event_whenflagclicked"), "nowhere"))),
    ]);
    assert_eq!(Target::hydrate(t).unwrap_err(), HydrateError::UnknownOpcode);
    let unused = target(vec![
        ("ok", top(block("event_whenflagclicked"))),
        ("bad", block("motion_movesteps")),
    ]);
    assert_eq!(Target::hydrate(unused).unwrap().scripts.len(), 1);
}
