use scratchc::compiler::compile;
use scratchc::ir::{Import, Module, Op, Type};
use scratchc::scope::CodeGenError;
use scratchc::scratch::{Block, BlockExpression, BlockOp, Procedure, Value};

fn strings(items: &[&str]) -> Vec<String> {
    items.iter().map(|s| s.to_string()).collect()
}

fn num(text: &str) -> Value {
    Value::Number(text.to_owned())
}

fn load(id: &str) -> Value {
    Value::Load(id.to_owned())
}

fn arg(name: &str) -> Value {
    Value::Expression(Box::new(BlockExpression::ArgumentReporterStringNumber { name: name.to_owned() }))
}

fn say(text: &str) -> BlockOp {
    BlockOp::LooksSay(Value::String(text.to_owned()))
}

fn chain(ops: Vec<BlockOp>) -> Block {
    let mut next = None;
    for op in ops.into_iter().rev() {
        next = Some(Box::new(Block { op, next }));
    }
    *next.unwrap()
}

fn script(ops: Vec<BlockOp>) -> Block {
    let mut all = vec![BlockOp::EventWhenFlagClicked];
    all.extend(ops);
    chain(all)
}

fn call(proc: &str, args: Vec<Value>) -> BlockOp {
    BlockOp::ProceduresCall { proc: proc.to_owned(), args }
}

fn procedure(id: &str, arguments: &[&str], body: Vec<BlockOp>) -> Procedure {
    Procedure { id: id.to_owned(), arguments: strings(arguments), body: chain(body) }
}

fn shown(ops: &[Op]) -> Vec<String> {
    ops.iter().map(|op| format!("{:?}", op)).collect()
}

fn referred(ops: &[Op]) -> Vec<usize> {
    ops.iter()
        .filter_map(|op| match op {
            Op::LocalFunc { func } => Some(*func),
            _ => None,
        })
        .collect()
}

fn names(module: &Module) -> Vec<&str> {
    module.functions.iter().map(|f| f.name.as_str()).collect()
}

#[test]
fn an_empty_program_has_only_main() {
    let module = compile(&[], &[], &[]).unwrap();
    assert!(module.data.is_empty());
    assert_eq!(names(&module), vec!["main"]);
    let main = &module.functions[0];
    assert!(main.export);
    assert_eq!(main.params, 0);
    assert_eq!(
        shown(&main.body),
        shown(&[
            Op::CreateBlock,
            Op::SwitchToBlock { block: 0 },
            Op::ImportFunc { import: Import::SpawnScript },
            Op::ImportFunc { import: Import::JoinScripts },
            Op::Call { func_ref: 1, args: vec![] },
            Op::Return,
        ])
    );
}

#[test]
fn a_lone_hat_block_returns() {
    let scripts = vec![Block { op: BlockOp::EventWhenFlagClicked, next: None }];
    let module = compile(&[], &[], &scripts).unwrap();
    assert_eq!(names(&module), vec!["script_0", "main"]);
    assert_eq!(
        shown(&module.functions[0].body),
        shown(&[Op::CreateBlock, Op::SwitchToBlock { block: 0 }, Op::Return])
    );
}

#[test]
fn saying_a_text_writes_a_literal_with_a_line_feed() {
    let module = compile(&[], &[], &[script(vec![say("hello")])]).unwrap();
    assert_eq!(module.data.len(), 1);
    assert_eq!(module.data[0].name, "data_0");
    assert!(!module.data[0].writable);
    assert_eq!(module.data[0].bytes, b"hello\n".to_vec());
    assert_eq!(
        shown(&module.functions[0].body),
        shown(&[
            Op::CreateBlock,
            Op::SwitchToBlock { block: 0 },
            Op::CreateBlock,
            Op::Jump { block: 1 },
            Op::SwitchToBlock { block: 1 },
            Op::ImportFunc { import: Import::Write },
            Op::Iconst { ty: Type::I32, imm: 1 },
            Op::DataAddr { data: 0 },
            Op::Iconst { ty: Type::Pointer, imm: 6 },
            Op::Call { func_ref: 0, args: vec![0, 1, 2] },
            Op::Return,
        ])
    );
}

#[test]
fn the_length_of_a_literal_counts_bytes() {
    let module = compile(&[], &[], &[script(vec![say("é✓")])]).unwrap();
    assert_eq!(module.data[0].bytes, "é✓\n".as_bytes().to_vec());
    assert!(module.functions[0]
        .body
        .iter()
        .any(|op| matches!(op, Op::Iconst { ty: Type::Pointer, imm: 6 })));
}

#[test]
fn literals_are_numbered_across_functions_and_after_the_cells() {
    let module = compile(
        &strings(&["x", "y"]),
        &[procedure("p", &[], vec![say("in p")])],
        &[script(vec![say("a"), say("b")]), script(vec![say("c")])],
    )
    .unwrap();
    let data: Vec<(&str, bool)> = module.data.iter().map(|d| (d.name.as_str(), d.writable)).collect();
    assert_eq!(
        data,
        vec![
            ("x", true),
            ("y", true),
            ("data_0", false),
            ("data_1", false),
            ("data_2", false),
            ("data_3", false)
        ]
    );
    assert_eq!(module.data[0].bytes, vec![0u8; 8]);
    assert_eq!(module.data[1].bytes, vec![0u8; 8]);
    assert_eq!(module.data[2].bytes, b"in p\n".to_vec());
    assert_eq!(module.data[5].bytes, b"c\n".to_vec());
    assert!(module.functions[2].body.iter().any(|op| matches!(op, Op::DataAddr { data: 5 })));
}

#[test]
fn every_variable_has_one_cell_of_eight_bytes() {
    let variables = strings(&["a", "data_0", "main", "b"]);
    let module = compile(&variables, &[], &[script(vec![say("x")])]).unwrap();
    for (i, id) in variables.iter().enumerate() {
        let cells: Vec<usize> = module
            .data
            .iter()
            .enumerate()
            .filter(|(_, d)| d.writable && &d.name == id)
            .map(|(j, _)| j)
            .collect();
        assert_eq!(cells, vec![i]);
        assert_eq!(module.data[i].bytes, vec![0u8; 8]);
    }
    assert_eq!(module.data.len(), 5);
}

#[test]
fn saying_a_number_prints_a_float() {
    let module = compile(&[], &[], &[chain(vec![BlockOp::LooksSay(num("4.5"))])]).unwrap();
    assert!(module.data.is_empty());
    assert_eq!(
        shown(&module.functions[0].body),
        shown(&[
            Op::CreateBlock,
            Op::SwitchToBlock { block: 0 },
            Op::ImportFunc { import: Import::WriteFloat },
            Op::Number { text: "4.5".to_owned() },
            Op::Call { func_ref: 0, args: vec![0] },
            Op::Return,
        ])
    );
}

#[test]
fn a_text_in_a_numeric_place_is_a_lenient_constant() {
    let module = compile(
        &[],
        &[],
        &[chain(vec![BlockOp::ControlWait(Value::String("soon".to_owned()))])],
    )
    .unwrap();
    assert_eq!(
        shown(&module.functions[0].body),
        shown(&[
            Op::CreateBlock,
            Op::SwitchToBlock { block: 0 },
            Op::ImportFunc { import: Import::Sleep },
            Op::Text { text: "soon".to_owned() },
            Op::FcvtToUint { value: 0 },
            Op::Call { func_ref: 0, args: vec![1] },
            Op::Return,
        ])
    );
}

#[test]
fn set_and_change_go_through_the_cell_of_the_variable() {
    let module = compile(
        &strings(&["x", "y"]),
        &[],
        &[chain(vec![
            BlockOp::DataSetVariableTo { id: "y".to_owned(), value: num("0") },
            BlockOp::DataChangeVariableBy { id: "y".to_owned(), value: load("x") },
        ])],
    )
    .unwrap();
    assert_eq!(
        shown(&module.functions[0].body),
        shown(&[
            Op::CreateBlock,
            Op::SwitchToBlock { block: 0 },
            Op::Number { text: "0".to_owned() },
            Op::DataAddr { data: 1 },
            Op::Store { value: 0, addr: 1 },
            Op::CreateBlock,
            Op::Jump { block: 1 },
            Op::SwitchToBlock { block: 1 },
            Op::DataAddr { data: 1 },
            Op::Load { addr: 2 },
            Op::DataAddr { data: 0 },
            Op::Load { addr: 4 },
            Op::Fadd { a: 3, b: 5 },
            Op::DataAddr { data: 1 },
            Op::Store { value: 6, addr: 7 },
            Op::Return,
        ])
    );
}

#[test]
fn reporters_evaluate_left_then_right() {
    let sum = Value::Expression(Box::new(BlockExpression::OperatorSubtract {
        left: Value::Expression(Box::new(BlockExpression::OperatorAdd { left: num("1"), right: num("2") })),
        right: num("3"),
    }));
    let test = Value::Expression(Box::new(BlockExpression::OperatorEquals { left: sum, right: num("0") }));
    let greater = Value::Expression(Box::new(BlockExpression::OperatorGT { left: num("2"), right: num("1") }));
    let module =
        compile(&[], &[], &[chain(vec![BlockOp::LooksSay(test), BlockOp::LooksSay(greater)])]).unwrap();
    let body = shown(&module.functions[0].body);
    assert_eq!(
        body[3..10].to_vec(),
        shown(&[
            Op::Number { text: "1".to_owned() },
            Op::Number { text: "2".to_owned() },
            Op::Fadd { a: 0, b: 1 },
            Op::Number { text: "3".to_owned() },
            Op::Fsub { a: 2, b: 3 },
            Op::Number { text: "0".to_owned() },
            Op::FloatEq { a: 4, b: 5 },
        ])
    );
    assert!(body.contains(&format!("{:?}", Op::FloatGt { a: 8, b: 9 })));
}

#[test]
fn a_repeat_counts_down_in_its_head() {
    let module = compile(
        &[],
        &[],
        &[chain(vec![BlockOp::ControlRepeat { times: num("3"), body: Box::new(chain(vec![say("x")])) }])],
    )
    .unwrap();
    assert_eq!(
        shown(&module.functions[0].body),
        shown(&[
            Op::CreateBlock,
            Op::SwitchToBlock { block: 0 },
            Op::CreateBlock,
            Op::CreateBlock,
            Op::CreateBlock,
            Op::DeclareVar { ty: Type::I32 },
            Op::Number { text: "3".to_owned() },
            Op::FcvtToUint { value: 0 },
            Op::Iconst { ty: Type::I32, imm: 1 },
            Op::Iadd { a: 1, b: 2 },
            Op::DefVar { var: 0, value: 3 },
            Op::Jump { block: 1 },
            Op::SwitchToBlock { block: 1 },
            Op::UseVar { var: 0 },
            Op::Iconst { ty: Type::I32, imm: 1 },
            Op::Isub { a: 4, b: 5 },
            Op::DefVar { var: 0, value: 6 },
            Op::Brz { cond: 6, zero: 3, nonzero: 2 },
            Op::SwitchToBlock { block: 2 },
            Op::ImportFunc { import: Import::Write },
            Op::Iconst { ty: Type::I32, imm: 1 },
            Op::DataAddr { data: 0 },
            Op::Iconst { ty: Type::Pointer, imm: 2 },
            Op::Call { func_ref: 0, args: vec![7, 8, 9] },
            Op::Jump { block: 1 },
            Op::SwitchToBlock { block: 3 },
            Op::Return,
        ])
    );
}

#[test]
fn an_if_without_alternative_branches_past_the_consequent() {
    let condition =
        Value::Expression(Box::new(BlockExpression::OperatorGT { left: num("2"), right: num("1") }));
    let module = compile(
        &[],
        &[],
        &[chain(vec![
            BlockOp::ControlIfElse {
                condition,
                consequent: Box::new(chain(vec![BlockOp::ControlStopScript])),
                alternative: None,
            },
            BlockOp::ControlStopAll,
        ])],
    )
    .unwrap();
    assert_eq!(
        shown(&module.functions[0].body),
        shown(&[
            Op::CreateBlock,
            Op::SwitchToBlock { block: 0 },
            Op::CreateBlock,
            Op::CreateBlock,
            Op::CreateBlock,
            Op::Number { text: "2".to_owned() },
            Op::Number { text: "1".to_owned() },
            Op::FloatGt { a: 0, b: 1 },
            Op::Brz { cond: 2, zero: 3, nonzero: 1 },
            Op::SwitchToBlock { block: 1 },
            Op::Return,
            Op::SwitchToBlock { block: 3 },
            Op::ImportFunc { import: Import::Exit },
            Op::ImportFunc { import: Import::DetachScripts },
            Op::Call { func_ref: 1, args: vec![] },
            Op::Iconst { ty: Type::I32, imm: 0 },
            Op::Call { func_ref: 0, args: vec![3] },
            Op::Trap,
        ])
    );
}

#[test]
fn an_if_with_alternative_branches_to_it() {
    let condition =
        Value::Expression(Box::new(BlockExpression::OperatorEquals { left: num("1"), right: num("1") }));
    let module = compile(
        &[],
        &[],
        &[chain(vec![BlockOp::ControlIfElse {
            condition,
            consequent: Box::new(chain(vec![BlockOp::EventWhenFlagClicked])),
            alternative: Some(Box::new(chain(vec![BlockOp::ControlStopScript]))),
        }])],
    )
    .unwrap();
    assert_eq!(
        shown(&module.functions[0].body[8..]),
        shown(&[
            Op::Brz { cond: 2, zero: 2, nonzero: 1 },
            Op::SwitchToBlock { block: 1 },
            Op::Jump { block: 3 },
            Op::SwitchToBlock { block: 2 },
            Op::Return,
            Op::SwitchToBlock { block: 3 },
            Op::Return,
        ])
    );
}

#[test]
fn a_forever_jumps_back_to_its_own_block() {
    let module = compile(
        &[],
        &[],
        &[script(vec![BlockOp::ControlForever(Box::new(chain(vec![BlockOp::LooksSay(num("1"))])))])],
    )
    .unwrap();
    assert_eq!(
        shown(&module.functions[0].body),
        shown(&[
            Op::CreateBlock,
            Op::SwitchToBlock { block: 0 },
            Op::CreateBlock,
            Op::Jump { block: 1 },
            Op::SwitchToBlock { block: 1 },
            Op::SwitchToBlock { block: 1 },
            Op::ImportFunc { import: Import::WriteFloat },
            Op::Number { text: "1".to_owned() },
            Op::Call { func_ref: 0, args: vec![0] },
            Op::Jump { block: 1 },
        ])
    );
}

#[test]
fn nothing_is_lowered_after_a_forever() {
    let forever = || BlockOp::ControlForever(Box::new(chain(vec![BlockOp::LooksSay(num("1"))])));
    let cut = compile(&[], &[], &[script(vec![forever()])]).unwrap();
    let followed = compile(
        &[],
        &[],
        &[script(vec![forever(), say("never"), call("not defined", vec![load("not declared")])])],
    )
    .unwrap();
    assert_eq!(shown(&followed.functions[0].body), shown(&cut.functions[0].body));
    assert!(followed.data.is_empty());
}

#[test]
fn nothing_is_lowered_after_a_stop() {
    for stop in [|| BlockOp::ControlStopAll, || BlockOp::ControlStopScript] {
        let cut = compile(&[], &[], &[script(vec![say("x"), stop()])]).unwrap();
        let followed =
            compile(&[], &[], &[script(vec![say("x"), stop(), say("never"), arg_say()])]).unwrap();
        assert_eq!(shown(&followed.functions[0].body), shown(&cut.functions[0].body));
        assert_eq!(followed.data.len(), 1);
    }
}

fn arg_say() -> BlockOp {
    BlockOp::LooksSay(arg("no such parameter"))
}

#[test]
fn a_procedure_keeps_its_parameters_in_variables() {
    let module = compile(
        &[],
        &[procedure("f %s %s", &["a", "b"], vec![BlockOp::LooksSay(arg("b"))])],
        &[],
    )
    .unwrap();
    assert_eq!(names(&module), vec!["proc_f %s %s", "main"]);
    let f = &module.functions[0];
    assert!(!f.export);
    assert_eq!(f.params, 2);
    assert_eq!(
        shown(&f.body),
        shown(&[
            Op::CreateBlock,
            Op::AppendFunctionParams { block: 0 },
            Op::SwitchToBlock { block: 0 },
            Op::DeclareVar { ty: Type::F64 },
            Op::BlockParam { block: 0, index: 0 },
            Op::DefVar { var: 0, value: 0 },
            Op::DeclareVar { ty: Type::F64 },
            Op::BlockParam { block: 0, index: 1 },
            Op::DefVar { var: 1, value: 1 },
            Op::SwitchToBlock { block: 0 },
            Op::ImportFunc { import: Import::WriteFloat },
            Op::UseVar { var: 1 },
            Op::Call { func_ref: 0, args: vec![2] },
            Op::Return,
        ])
    );
}

#[test]
fn the_last_parameter_of_a_name_wins() {
    let module =
        compile(&[], &[procedure("f", &["n", "m", "n"], vec![BlockOp::LooksSay(arg("n"))])], &[]).unwrap();
    assert!(module.functions[0].body.iter().any(|op| matches!(op, Op::UseVar { var: 2 })));
    assert!(!module.functions[0].body.iter().any(|op| matches!(op, Op::UseVar { var: 0 })));
}

#[test]
fn a_call_passes_its_operands_in_order() {
    let module = compile(
        &strings(&["x"]),
        &[procedure("g", &[], vec![say("g")]), procedure("f", &["a", "b"], vec![say("f")])],
        &[script(vec![call("f", vec![num("7"), load("x")])])],
    )
    .unwrap();
    assert_eq!(names(&module), vec!["proc_g", "proc_f", "script_0", "main"]);
    let body = shown(&module.functions[2].body);
    assert_eq!(
        body[5..].to_vec(),
        shown(&[
            Op::Number { text: "7".to_owned() },
            Op::DataAddr { data: 0 },
            Op::Load { addr: 1 },
            Op::LocalFunc { func: 1 },
            Op::Call { func_ref: 0, args: vec![0, 2] },
            Op::Return,
        ])
    );
}

#[test]
fn procedures_may_call_themselves_and_each_other() {
    let module = compile(
        &[],
        &[
            procedure("even", &["n"], vec![call("odd", vec![arg("n")]), call("even", vec![arg("n")])]),
            procedure("odd", &["n"], vec![call("even", vec![arg("n")])]),
        ],
        &[],
    )
    .unwrap();
    assert_eq!(referred(&module.functions[0].body), vec![1, 0]);
    assert_eq!(referred(&module.functions[1].body), vec![0]);
}

#[test]
fn main_spawns_each_script_once_in_order() {
    let module = compile(
        &[],
        &[procedure("p", &[], vec![say("p")]), procedure("q", &[], vec![say("q")])],
        &[script(vec![say("a")]), script(vec![say("b")]), script(vec![say("c")])],
    )
    .unwrap();
    assert_eq!(names(&module), vec!["proc_p", "proc_q", "script_0", "script_1", "script_2", "main"]);
    let main = module.functions.last().unwrap();
    assert_eq!(referred(&main.body), vec![2, 3, 4]);
    assert_eq!(
        shown(&main.body),
        shown(&[
            Op::CreateBlock,
            Op::SwitchToBlock { block: 0 },
            Op::ImportFunc { import: Import::SpawnScript },
            Op::LocalFunc { func: 2 },
            Op::FuncAddr { func_ref: 1 },
            Op::Call { func_ref: 0, args: vec![0] },
            Op::LocalFunc { func: 3 },
            Op::FuncAddr { func_ref: 2 },
            Op::Call { func_ref: 0, args: vec![1] },
            Op::LocalFunc { func: 4 },
            Op::FuncAddr { func_ref: 3 },
            Op::Call { func_ref: 0, args: vec![2] },
            Op::ImportFunc { import: Import::JoinScripts },
            Op::Call { func_ref: 4, args: vec![] },
            Op::Return,
        ])
    );
}

#[test]
fn the_symbol_of_a_procedure_is_used_once() {
    let module = compile(
        &[],
        &[procedure("script_0", &[], vec![say("p")]), procedure("main", &[], vec![say("q")])],
        &[script(vec![say("a")])],
    )
    .unwrap();
    let all = names(&module);
    assert_eq!(all, vec!["proc_script_0", "proc_main", "script_0", "main"]);
    for name in ["proc_script_0", "proc_main"] {
        assert_eq!(all.iter().filter(|n| **n == name).count(), 1);
    }
}

#[test]
fn script_symbols_count_in_decimal() {
    let scripts: Vec<Block> = (0..12).map(|_| script(vec![])).collect();
    let module = compile(&[], &[], &scripts).unwrap();
    assert_eq!(module.functions[9].name, "script_9");
    assert_eq!(module.functions[10].name, "script_10");
    assert_eq!(module.functions[11].name, "script_11");
    assert_eq!(module.functions[12].name, "main");
}

#[test]
fn shared_identifiers_are_refused() {
    assert_eq!(
        compile(&strings(&["x", "y", "x"]), &[], &[]).unwrap_err(),
        CodeGenError::DuplicateVariable
    );
    assert_eq!(
        compile(&[], &[procedure("f", &[], vec![say("1")]), procedure("f", &["a"], vec![say("2")])], &[])
            .unwrap_err(),
        CodeGenError::DuplicateProcedure
    );
    assert_eq!(
        compile(
            &strings(&["x", "x"]),
            &[procedure("f", &[], vec![say("1")]), procedure("f", &[], vec![say("2")])],
            &[]
        )
        .unwrap_err(),
        CodeGenError::DuplicateVariable
    );
}

#[test]
fn names_that_are_not_there_are_refused() {
    let variables = strings(&["x"]);
    let procedures = [procedure("f", &["n"], vec![BlockOp::LooksSay(arg("n"))])];
    let refused = |ops: Vec<BlockOp>| compile(&variables, &procedures, &[script(ops)]).unwrap_err();
    assert_eq!(refused(vec![BlockOp::LooksSay(load("y"))]), CodeGenError::UnknownVariable);
    assert_eq!(
        refused(vec![BlockOp::DataSetVariableTo { id: "y".to_owned(), value: num("1") }]),
        CodeGenError::UnknownVariable
    );
    assert_eq!(
        refused(vec![BlockOp::DataChangeVariableBy { id: "y".to_owned(), value: num("1") }]),
        CodeGenError::UnknownVariable
    );
    assert_eq!(refused(vec![BlockOp::LooksSay(arg("n"))]), CodeGenError::UnknownArgument);
    assert_eq!(refused(vec![call("g", vec![])]), CodeGenError::UnknownProcedure);
    assert_eq!(refused(vec![call("f", vec![])]), CodeGenError::ArityMismatch);
    assert_eq!(refused(vec![call("f", vec![num("1"), num("2")])]), CodeGenError::ArityMismatch);
    assert_eq!(
        compile(&variables, &[procedure("g", &["a"], vec![BlockOp::LooksSay(arg("b"))])], &[]).unwrap_err(),
        CodeGenError::UnknownArgument
    );
}

#[test]
fn the_first_bad_name_in_the_order_of_evaluation_decides() {
    let variables = strings(&["x"]);
    let procedures = [procedure("f", &["n"], vec![BlockOp::LooksSay(arg("n"))])];
    let refused = |ops: Vec<BlockOp>| compile(&variables, &procedures, &[script(ops)]).unwrap_err();
    assert_eq!(refused(vec![call("g", vec![load("y")])]), CodeGenError::UnknownVariable);
    assert_eq!(
        refused(vec![BlockOp::DataSetVariableTo { id: "y".to_owned(), value: arg("n") }]),
        CodeGenError::UnknownArgument
    );
    assert_eq!(
        refused(vec![BlockOp::DataChangeVariableBy { id: "y".to_owned(), value: arg("n") }]),
        CodeGenError::UnknownVariable
    );
    assert_eq!(
        refused(vec![call("g", vec![]), BlockOp::LooksSay(load("y"))]),
        CodeGenError::UnknownProcedure
    );
    assert_eq!(
        compile(
            &variables,
            &[procedure("p", &[], vec![BlockOp::LooksSay(arg("n"))])],
            &[script(vec![BlockOp::LooksSay(load("y"))])]
        )
        .unwrap_err(),
        CodeGenError::UnknownArgument
    );
    let nested = BlockOp::ControlRepeat {
        times: load("y"),
        body: Box::new(chain(vec![call("g", vec![])])),
    };
    assert_eq!(refused(vec![nested]), CodeGenError::UnknownVariable);
    let branches = BlockOp::ControlIfElse {
        condition: num("1"),
        consequent: Box::new(chain(vec![say("ok")])),
        alternative: Some(Box::new(chain(vec![call("g", vec![])]))),
    };
    assert_eq!(refused(vec![branches, BlockOp::LooksSay(load("y"))]), CodeGenError::UnknownProcedure);
}

#[test]
fn a_said_text_needs_no_names() {
    let module = compile(&[], &[], &[script(vec![say("x")])]);
    assert!(module.is_ok());
}

#[test]
fn a_comparison_in_a_numeric_place_is_turned_into_a_float() {
    let greater = || Value::Expression(Box::new(BlockExpression::OperatorGT { left: num("2"), right: num("1") }));
    let module = compile(&[], &[], &[chain(vec![BlockOp::LooksSay(greater())])]).unwrap();
    assert_eq!(
        shown(&module.functions[0].body),
        shown(&[
            Op::CreateBlock,
            Op::SwitchToBlock { block: 0 },
            Op::ImportFunc { import: Import::WriteFloat },
            Op::Number { text: "2".to_owned() },
            Op::Number { text: "1".to_owned() },
            Op::FloatGt { a: 0, b: 1 },
            Op::BoolToFloat { value: 2 },
            Op::Call { func_ref: 0, args: vec![3] },
            Op::Return,
        ])
    );
    let nested = Value::Expression(Box::new(BlockExpression::OperatorAdd { left: greater(), right: num("1") }));
    let module = compile(&[], &[], &[chain(vec![BlockOp::ControlWait(nested)])]).unwrap();
    assert_eq!(
        shown(&module.functions[0].body[3..]),
        shown(&[
            Op::Number { text: "2".to_owned() },
            Op::Number { text: "1".to_owned() },
            Op::FloatGt { a: 0, b: 1 },
            Op::BoolToFloat { value: 2 },
            Op::Number { text: "1".to_owned() },
            Op::Fadd { a: 3, b: 4 },
            Op::FcvtToUint { value: 5 },
            Op::Call { func_ref: 0, args: vec![6] },
            Op::Return,
        ])
    );
}

#[test]
fn a_condition_is_branched_on_as_it_is() {
    let condition =
        Value::Expression(Box::new(BlockExpression::OperatorEquals { left: num("1"), right: num("1") }));
    let module = compile(
        &[],
        &[],
        &[chain(vec![BlockOp::ControlIfElse {
            condition,
            consequent: Box::new(chain(vec![BlockOp::ControlStopScript])),
            alternative: None,
        }])],
    )
    .unwrap();
    assert!(!module.functions[0].body.iter().any(|op| matches!(op, Op::BoolToFloat { .. })));
}

#[test]
fn a_copy_of_a_program_compiles_to_the_same_module() {
    let body = script(vec![
        BlockOp::ControlRepeat {
            times: Value::Expression(Box::new(BlockExpression::OperatorAdd { left: num("1"), right: load("x") })),
            body: Box::new(chain(vec![
                say("x"),
                BlockOp::ControlIfElse {
                    condition: Value::Expression(Box::new(BlockExpression::OperatorGT {
                        left: load("x"),
                        right: num("2"),
                    })),
                    consequent: Box::new(chain(vec![call("f", vec![num("1")])])),
                    alternative: Some(Box::new(chain(vec![BlockOp::ControlStopScript]))),
                },
            ])),
        },
        BlockOp::ControlForever(Box::new(chain(vec![BlockOp::ControlWait(num("1"))]))),
    ]);
    let copy = body.clone();
    assert_eq!(format!("{:?}", copy), format!("{:?}", body));
    assert_eq!(format!("{:?}", copy.op.clone()), format!("{:?}", body.op));
    let procedures = [procedure("f", &["n"], vec![BlockOp::LooksSay(arg("n"))])];
    let variables = strings(&["x"]);
    let one = compile(&variables, &procedures, &[body]).unwrap();
    let other = compile(&variables, &procedures, &[copy]).unwrap();
    assert_eq!(format!("{:?}", one), format!("{:?}", other));
}
