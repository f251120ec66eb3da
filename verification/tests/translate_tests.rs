use c2cls::ast::{
    ArraySize, BinaryOperator, BlockItem, Constant, Declaration, DeclarationSpecifier, Declarator,
    DeclaratorKind, DerivedDeclarator, DoWhileStatement, Expression, ExternalDeclaration,
    ForInitializer, ForStatement, FunctionDefinition, IfStatement, InitDeclarator, Initializer,
    IntegerBase, Label, LabeledStatement, MemberOperator, ParameterDeclaration,
    SpecifierQualifier, Statement, StorageClassSpecifier, StructDeclaration, StructDeclarator,
    StructField, StructType, SwitchStatement, TranslationUnit, TypeName, TypeSpecifier,
    UnaryOperator, WhileStatement,
};
use c2cls::blocks::transpile_switch_statement;
use c2cls::control::{transpile_do_while_statement, transpile_for_statement, transpile_if_statement, transpile_while_statement};
use c2cls::declarations::transpile_declaration;
use c2cls::declarators::transpile_declarator;
use c2cls::expressions::transpile_expression;
use c2cls::markers::resolve_fn_decls;
use c2cls::operands::transpile_expression_no_parens;
use c2cls::state::{NameSet, State};
use c2cls::specifiers::shrink_specifiers;
use c2cls::statements::transpile_statement;
use c2cls::structs::{is_struct_or_enum, transpile_declaration_specifier};
use c2cls::translate::transpile;

fn id(n: &str) -> Expression {
    Expression::Identifier(n.to_string())
}

fn num(n: &str) -> Expression {
    Expression::Constant(Constant::Integer(IntegerBase::Decimal, n.to_string()))
}

fn bin(op: BinaryOperator, l: Expression, r: Expression) -> Expression {
    Expression::BinaryOperator(op, Box::new(l), Box::new(r))
}

fn stmt(e: Expression) -> Statement {
    Statement::Expression(Some(Box::new(e)))
}

fn named(n: &str, derived: Vec<DerivedDeclarator>) -> Declarator {
    Declarator { kind: DeclaratorKind::Identifier(n.to_string()), derived }
}

fn ts(t: TypeSpecifier) -> DeclarationSpecifier {
    DeclarationSpecifier::TypeSpecifier(t)
}

fn decl(specifiers: Vec<DeclarationSpecifier>, names: Vec<Declarator>) -> Declaration {
    Declaration {
        specifiers,
        declarators: names.into_iter().map(|d| InitDeclarator { declarator: d, initializer: None }).collect(),
    }
}

fn int_field(n: &str) -> StructDeclaration {
    StructDeclaration::Field(StructField {
        specifiers: vec![SpecifierQualifier::TypeSpecifier(TypeSpecifier::Int)],
        declarators: vec![StructDeclarator { declarator: Some(named(n, Vec::new())) }],
    })
}

fn is_tag(t: &str) -> bool {
    t.len() == 6 && t.chars().all(|c| c.is_ascii_alphanumeric())
}

#[test]
fn new_state_knows_builtin_typedefs() {
    let state = State::new();
    assert_eq!(state.lookup_typedef("$T___builtin_va_list"), Some("v0*".to_string()));
    assert_eq!(state.lookup_typedef("$T___sighandler_t"), Some("v0*".to_string()));
    assert_eq!(state.lookup_typedef("$T___compar_fn_t"), Some("v0*".to_string()));
    assert_eq!(state.lookup_typedef("$T_size_t"), None);
    assert_eq!(state.depth(), 0);
    assert!(!state.is_aborted());
}

#[test]
fn typedef_read_after_write() {
    let mut state = State::new();
    state.add_typedef("$T_a".to_string(), "i32 ".to_string());
    state.add_typedef("$T_b".to_string(), "u8 ".to_string());
    state.add_typedef("$T_a".to_string(), "i64 ".to_string());
    assert_eq!(state.lookup_typedef("$T_a"), Some("i64 ".to_string()));
    assert_eq!(state.lookup_typedef("$T_b"), Some("u8 ".to_string()));
}

#[test]
fn undefined_functions_are_added_and_removed() {
    let mut state = State::new();
    state.add_undef_fn("$I_f");
    state.add_undef_fn("$I_g");
    state.add_undef_fn("$I_f");
    assert_eq!(state.undef_fn_count(), 2);
    state.remove_undef_fn("$I_f");
    assert!(!state.is_undef_fn("$I_f"));
    assert!(state.is_undef_fn("$I_g"));
}

#[test]
fn expressions_are_parenthesized() {
    let mut state = State::new();
    let e = bin(BinaryOperator::Plus, id("a"), num("1"));
    assert_eq!(transpile_expression(&e, &mut state), Some("(($I_a)+(1))".to_string()));
    let idx = bin(BinaryOperator::Index, id("v"), num("2"));
    assert_eq!(transpile_expression_no_parens(&idx, &mut state), Some("($I_v)[(2)]".to_string()));
    let and = bin(BinaryOperator::LogicalAnd, id("p"), id("q"));
    assert_eq!(transpile_expression_no_parens(&and, &mut state), Some("($I_p)&($I_q)".to_string()));
}

#[test]
fn calls_members_unary_and_casts() {
    let mut state = State::new();
    let call = Expression::Call(Box::new(id("f")), vec![id("x"), num("3")]);
    assert_eq!(transpile_expression_no_parens(&call, &mut state), Some("$I_f(($I_x), (3))".to_string()));
    let member = Expression::Member(MemberOperator::Indirect, Box::new(id("p")), "next".to_string());
    assert_eq!(transpile_expression_no_parens(&member, &mut state), Some("($I_p)->$I_next".to_string()));
    let neg = Expression::UnaryOperator(UnaryOperator::PostIncrement, Box::new(id("i")));
    assert_eq!(transpile_expression_no_parens(&neg, &mut state), Some("($I_i)++".to_string()));
    let cast = Expression::Cast(
        TypeName {
            specifiers: vec![SpecifierQualifier::TypeSpecifier(TypeSpecifier::Unsigned), SpecifierQualifier::TypeSpecifier(TypeSpecifier::Char)],
            declarator: Some(Declarator { kind: DeclaratorKind::Abstract, derived: vec![DerivedDeclarator::Pointer] }),
        },
        Box::new(id("buf")),
    );
    assert_eq!(transpile_expression_no_parens(&cast, &mut state), Some("[u8 *](($I_buf))".to_string()));
    assert_eq!(transpile_expression_no_parens(&Expression::SizeOfTy, &mut state), Some("0".to_string()));
}

#[test]
fn unsupported_expressions_give_nothing() {
    let mut state = State::new();
    assert_eq!(transpile_expression(&Expression::Conditional, &mut state), None);
    let indirect = Expression::Call(Box::new(Expression::Member(MemberOperator::Direct, Box::new(id("s")), "f".to_string())), Vec::new());
    assert_eq!(transpile_expression(&indirect, &mut state), None);
    assert!(!state.is_aborted());
    assert_eq!(state.warnings(), &vec!["!! ternaries not supported".to_string(), "!! Unknown callee".to_string()]);
}

#[test]
fn constant_out_of_range_stops_the_translation() {
    let mut state = State::new();
    let big = Expression::Constant(Constant::Integer(IntegerBase::Hexadecimal, "ffffffffffffffff".to_string()));
    assert_eq!(transpile_expression(&big, &mut state), None);
    assert!(state.is_aborted());
}

#[test]
fn declaration_of_a_variable() {
    let mut state = State::new();
    let d = decl(vec![ts(TypeSpecifier::Int)], vec![named("x", Vec::new())]);
    assert_eq!(transpile_declaration(&d, &mut state, true), Some("i32  $I_x;\n".to_string()));
}

#[test]
fn declaration_with_initializer() {
    let mut state = State::new();
    let d = Declaration {
        specifiers: vec![ts(TypeSpecifier::Unsigned), ts(TypeSpecifier::Long)],
        declarators: vec![InitDeclarator {
            declarator: named("n", Vec::new()),
            initializer: Some(Initializer::Expression(Box::new(num("5")))),
        }],
    };
    assert_eq!(transpile_declaration(&d, &mut state, false), Some("u32  $I_n = (5);\n".to_string()));
}

#[test]
fn typedef_is_recorded_and_used() {
    let mut state = State::new();
    let td = decl(
        vec![DeclarationSpecifier::StorageClass(StorageClassSpecifier::Typedef), ts(TypeSpecifier::Unsigned), ts(TypeSpecifier::Int)],
        vec![named("uint", Vec::new())],
    );
    assert_eq!(transpile_declaration(&td, &mut state, true), Some(String::new()));
    assert_eq!(state.lookup_typedef("$T_uint"), Some("u32 ".to_string()));
    let d = decl(vec![ts(TypeSpecifier::TypedefName("uint".to_string()))], vec![named("y", Vec::new())]);
    assert_eq!(transpile_declaration(&d, &mut state, true), Some("u32   $I_y;\n".to_string()));
    let unknown = decl(vec![ts(TypeSpecifier::TypedefName("FILE".to_string()))], vec![named("f", vec![DerivedDeclarator::Pointer])]);
    assert_eq!(transpile_declaration(&unknown, &mut state, true), Some("FILE  *$I_f;\n".to_string()));
}

#[test]
fn struct_definition_becomes_a_class() {
    let mut state = State::new();
    let s = StructType { anon_id: 1, identifier: Some("P".to_string()), declarations: Some(vec![int_field("a"), int_field("b")]) };
    let d = decl(vec![ts(TypeSpecifier::Struct(s))], Vec::new());
    assert_eq!(
        transpile_declaration(&d, &mut state, true),
        Some("class $T_P {\ni32 $I_a;\ni32 $I_b;\n} ;\n".to_string())
    );
    assert!(state.is_defined_struct("$T_P"));
    assert_eq!(state.depth(), 0);
}

#[test]
fn nested_struct_is_hoisted() {
    let mut state = State::new();
    let inner = StructType { anon_id: 2, identifier: Some("In".to_string()), declarations: Some(vec![int_field("v")]) };
    let field = StructDeclaration::Field(StructField {
        specifiers: vec![SpecifierQualifier::TypeSpecifier(TypeSpecifier::Struct(inner))],
        declarators: vec![StructDeclarator { declarator: Some(named("i", Vec::new())) }],
    });
    let outer = StructType { anon_id: 1, identifier: Some("Out".to_string()), declarations: Some(vec![field]) };
    let d = decl(vec![ts(TypeSpecifier::Struct(outer))], Vec::new());
    assert_eq!(
        transpile_declaration(&d, &mut state, true),
        Some("class $T_Out {\n$T_In $I_i;\n} ;\n".to_string())
    );
    assert_eq!(state.nested().as_str(), "class $T_In {\ni32 $I_v;\n};\n");
    assert_eq!(state.depth(), 0);
}

#[test]
fn struct_forward_declaration_writes_nothing() {
    let mut state = State::new();
    let s = StructType { anon_id: 1, identifier: Some("Q".to_string()), declarations: None };
    let d = decl(vec![ts(TypeSpecifier::Struct(s))], Vec::new());
    assert_eq!(transpile_declaration(&d, &mut state, true), None);
    assert!(state.is_empty_struct("$T_Q"));
}

#[test]
fn untagged_struct_gets_one_generated_tag() {
    let mut state = State::new();
    let s = StructType { anon_id: 7, identifier: None, declarations: Some(vec![int_field("a")]) };
    let spec = ts(TypeSpecifier::Struct(s));
    let (name, has_body) = is_struct_or_enum(&spec, &mut state).unwrap();
    assert!(has_body);
    assert!(name.starts_with("$T_anon_"));
    assert!(is_tag(&name["$T_anon_".len()..]));
    let again = is_struct_or_enum(&spec, &mut state).unwrap();
    assert_eq!(again.0, name);
    assert_eq!(state.anon_count(), 1);
}

#[test]
fn typedef_of_untagged_struct() {
    let mut state = State::new();
    let s = StructType { anon_id: 3, identifier: None, declarations: Some(vec![int_field("x")]) };
    let td = decl(
        vec![DeclarationSpecifier::StorageClass(StorageClassSpecifier::Typedef), ts(TypeSpecifier::Struct(s))],
        vec![named("pt", Vec::new())],
    );
    let out = transpile_declaration(&td, &mut state, true).unwrap();
    let name = state.lookup_typedef("$T_pt").unwrap();
    assert!(name.starts_with("$T_anon_"));
    assert_eq!(out, format!("class {} {{\ni32 $I_x;\n}} ;\n", name));
}

#[test]
fn function_declaration_is_marked() {
    let mut state = State::new();
    let param = ParameterDeclaration { specifiers: vec![ts(TypeSpecifier::Int)], declarator: None };
    let d = decl(vec![ts(TypeSpecifier::Int)], vec![named("f", vec![DerivedDeclarator::Function(vec![param])])]);
    assert_eq!(
        transpile_declaration(&d, &mut state, true),
        Some("\\begin_fn_decl $I_f\ni32  $I_f(i32 $A_0){}\n\\end_fn_decl $I_f\n".to_string())
    );
    assert!(state.is_undef_fn("$I_f"));
}

#[test]
fn extern_function_declaration_is_not_marked() {
    let mut state = State::new();
    let d = decl(
        vec![DeclarationSpecifier::StorageClass(StorageClassSpecifier::Extern), ts(TypeSpecifier::Void)],
        vec![named("g", vec![DerivedDeclarator::Function(Vec::new())])],
    );
    assert_eq!(transpile_declaration(&d, &mut state, true), Some("v0  $I_g(){}\n".to_string()));
    assert!(!state.is_undef_fn("$I_g"));
}

#[test]
fn declarators_with_arrays_and_parameters() {
    let mut state = State::new();
    let size = bin(BinaryOperator::ShiftLeft, num("1"), num("4"));
    let arr = named("buf", vec![DerivedDeclarator::Array(ArraySize::VariableExpression(Box::new(size)))]);
    assert_eq!(transpile_declarator(&arr, &"i8 ".to_string(), &mut state, &String::new()), Some("i8 [16]$I_buf".to_string()));
    let p0 = ParameterDeclaration { specifiers: vec![ts(TypeSpecifier::Char)], declarator: Some(named("c", Vec::new())) };
    let p1 = ParameterDeclaration { specifiers: vec![ts(TypeSpecifier::Double)], declarator: Some(Declarator { kind: DeclaratorKind::Abstract, derived: vec![DerivedDeclarator::Pointer] }) };
    let f = named("h", vec![DerivedDeclarator::Function(vec![p0, p1])]);
    assert_eq!(transpile_declarator(&f, &"i32 ".to_string(), &mut state, &String::new()), Some("i32 $I_h(i8 $I_c, f64 *$A_1)".to_string()));
    let kr = named("k", vec![DerivedDeclarator::KRFunction(vec!["a".to_string(), "b".to_string()])]);
    assert_eq!(transpile_declarator(&kr, &String::new(), &mut state, &String::new()), Some("$I_k(ab)".to_string()));
    let inner = Declarator { kind: DeclaratorKind::Declarator, derived: Vec::new() };
    assert_eq!(transpile_declarator(&inner, &String::new(), &mut state, &String::new()), None);
}

#[test]
fn array_size_too_large_stops_the_translation() {
    let mut state = State::new();
    let size = bin(BinaryOperator::ShiftLeft, num("1"), num("70"));
    let arr = named("big", vec![DerivedDeclarator::Array(ArraySize::StaticExpression(Box::new(size)))]);
    assert_eq!(transpile_declarator(&arr, &String::new(), &mut state, &String::new()), None);
    assert!(state.is_aborted());
}

#[test]
fn if_and_while_statements() {
    let mut state = State::new();
    let i = IfStatement {
        condition: Box::new(id("c")),
        then_statement: Box::new(Statement::Break),
        else_statement: Some(Box::new(Statement::Continue)),
    };
    assert_eq!(transpile_if_statement(&i, &mut state), Some("if (($I_c)) {\nbreak;\n}\nelse {\ncontinue;\n}\n".to_string()));
    let w = WhileStatement { expression: Box::new(num("1")), statement: Box::new(Statement::Return(None)) };
    assert_eq!(transpile_while_statement(&w, &mut state), Some("while ((1)) {\nreturn;\n}\n".to_string()));
}

#[test]
fn do_while_runs_its_body_first() {
    let mut state = State::new();
    let d = DoWhileStatement {
        statement: Box::new(stmt(Expression::UnaryOperator(UnaryOperator::PostIncrement, Box::new(id("x"))))),
        expression: Box::new(bin(BinaryOperator::Less, id("x"), num("3"))),
    };
    assert_eq!(
        transpile_do_while_statement(&d, &mut state),
        Some("(($I_x)++);\nwhile ((($I_x)<(3))) {\n(($I_x)++);\n}\n".to_string())
    );
}

#[test]
fn for_statement_with_missing_parts() {
    let mut state = State::new();
    let f = ForStatement { initializer: ForInitializer::Empty, condition: None, step: None, statement: Box::new(Statement::Break) };
    assert_eq!(transpile_for_statement(&f, &mut state), Some("for (0;1; 0) {\nbreak;\n}\n".to_string()));
    let g = ForStatement {
        initializer: ForInitializer::Expression(Box::new(bin(BinaryOperator::Assign, id("i"), num("0")))),
        condition: Some(Box::new(bin(BinaryOperator::Less, id("i"), id("n")))),
        step: Some(Box::new(Expression::UnaryOperator(UnaryOperator::PreIncrement, Box::new(id("i"))))),
        statement: Box::new(Statement::Compound(Vec::new())),
    };
    assert_eq!(transpile_for_statement(&g, &mut state), Some("for ((($I_i)=(0));(($I_i)<($I_n)); (++($I_i))) {\n}\n".to_string()));
}

#[test]
fn switch_becomes_a_one_pass_loop() {
    let mut state = State::new();
    let assign = |v: &str| stmt(bin(BinaryOperator::Assign, id("y"), num(v)));
    let body = Statement::Compound(vec![
        BlockItem::Statement(Statement::Labeled(LabeledStatement { label: Label::Case(Box::new(num("1"))), statement: Box::new(assign("1")) })),
        BlockItem::Statement(Statement::Break),
        BlockItem::Statement(Statement::Labeled(LabeledStatement {
            label: Label::Case(Box::new(num("2"))),
            statement: Box::new(Statement::Labeled(LabeledStatement { label: Label::Case(Box::new(num("3"))), statement: Box::new(assign("3")) })),
        })),
        BlockItem::Statement(Statement::Labeled(LabeledStatement { label: Label::Default, statement: Box::new(assign("0")) })),
    ]);
    let sw = SwitchStatement { expression: Box::new(id("x")), statement: Box::new(body) };
    let out = transpile_switch_statement(&sw, &mut state).unwrap();
    let tag = &out["for (u8 $_".len().."for (u8 $_".len() + 6];
    assert!(is_tag(tag));
    let expected = format!(
        "for (u8 $_{t} = 0; $_{t} == 0; $_{t} = 1) {{\n\
         if (($I_x) == (1)) {{\n(($I_y)=(1));\nbreak;\n}}\n\
         else if (($I_x) == (2)) {{\n(($I_y)=(3));\n}}\n\
         else if (($I_x) == (3)) {{\n(($I_y)=(3));\n}}\n\
         else {{\n(($I_y)=(0));\n}}\n}}\n",
        t = tag
    );
    assert_eq!(out, expected);
}

#[test]
fn switch_with_only_a_default() {
    let mut state = State::new();
    let body = Statement::Compound(vec![BlockItem::Statement(Statement::Labeled(LabeledStatement { label: Label::Default, statement: Box::new(Statement::Break) }))]);
    let sw = SwitchStatement { expression: Box::new(id("x")), statement: Box::new(body) };
    let out = transpile_switch_statement(&sw, &mut state).unwrap();
    let tag = &out["for (u8 $_".len().."for (u8 $_".len() + 6];
    assert_eq!(out, format!("for (u8 $_{t} = 0; $_{t} == 0; $_{t} = 1) {{\nbreak;\n}}\n", t = tag));
}

fn main_function() -> ExternalDeclaration {
    ExternalDeclaration::FunctionDefinition(FunctionDefinition {
        specifiers: vec![ts(TypeSpecifier::Int)],
        declarator: named("main", vec![DerivedDeclarator::Function(Vec::new())]),
        statement: Statement::Compound(vec![BlockItem::Statement(Statement::Return(Some(Box::new(num("0")))))]),
    })
}

#[test]
fn whole_unit_is_laid_out_in_sections() {
    let mut state = State::new();
    let point = StructType { anon_id: 1, identifier: Some("P".to_string()), declarations: Some(vec![int_field("x")]) };
    let fwd = StructType { anon_id: 2, identifier: Some("Q".to_string()), declarations: None };
    let unit = TranslationUnit {
        items: vec![
            ExternalDeclaration::Declaration(decl(vec![ts(TypeSpecifier::Struct(point))], Vec::new())),
            ExternalDeclaration::Declaration(decl(vec![ts(TypeSpecifier::Struct(fwd))], Vec::new())),
            ExternalDeclaration::Declaration(decl(vec![ts(TypeSpecifier::Int)], vec![named("g", Vec::new())])),
            main_function(),
        ],
    };
    let out = transpile(&unit, &mut state);
    assert_eq!(
        out,
        "// hoisted nested struct decls:\n\
         \n// hoisted empty struct decls:\n\
         class $T_Q {};\n\
         \n// non-empty struct decls:\n\
         class $T_P {\ni32 $I_x;\n} ;\n\
         \n// other code:\n\
         i32  $I_g;\n\
         i32 $I_main()\n{\nreturn (0);\n}\n\n"
    );
}

#[test]
fn declared_but_defined_function_is_dropped() {
    let mut state = State::new();
    let proto = decl(vec![ts(TypeSpecifier::Int)], vec![named("main", vec![DerivedDeclarator::Function(Vec::new())])]);
    let unit = TranslationUnit { items: vec![ExternalDeclaration::Declaration(proto), main_function()] };
    let out = transpile(&unit, &mut state);
    assert!(out.contains("\\begin_fn_decl $I_main\n"));
    assert!(!state.is_undef_fn("$I_main"));
    let resolved = String::from_utf8(resolve_fn_decls(&out, &state).unwrap()).unwrap();
    assert_eq!(
        resolved,
        "// hoisted nested struct decls:\n\n// hoisted empty struct decls:\n\n// non-empty struct decls:\n\n// other code:\n\ni32 $I_main()\n{\nreturn (0);\n}\n\n"
    );
}

#[test]
fn declared_only_function_keeps_an_empty_body() {
    let mut state = State::new();
    let proto = decl(vec![ts(TypeSpecifier::Void)], vec![named("f", vec![DerivedDeclarator::Function(Vec::new())])]);
    let unit = TranslationUnit { items: vec![ExternalDeclaration::Declaration(proto)] };
    let out = transpile(&unit, &mut state);
    let resolved = String::from_utf8(resolve_fn_decls(&out, &state).unwrap()).unwrap();
    assert!(resolved.ends_with("// other code:\n\nv0  $I_f(){}\n\n"));
    assert!(!resolved.contains("_fn_decl"));
}

#[test]
fn resolve_without_markers_keeps_text() {
    let state = State::new();
    assert_eq!(resolve_fn_decls("plain text\n", &state), Some(b"plain text\n".to_vec()));
}

#[test]
fn resolve_with_missing_end_marker_fails() {
    let state = State::new();
    assert_eq!(resolve_fn_decls("\\begin_fn_decl $I_f\nbody\n", &state), None);
    assert_eq!(resolve_fn_decls("\\begin_fn_decl $I_f", &state), None);
}

#[test]
fn resolve_keeps_line_ends_of_removed_lines() {
    let mut state = State::new();
    state.add_undef_fn("$I_f");
    let text = "\\begin_fn_decl $I_f\nA\n\\end_fn_decl $I_f\n";
    assert_eq!(String::from_utf8(resolve_fn_decls(text, &state).unwrap()).unwrap(), "\nA\n\n");
    let other = State::new();
    assert_eq!(String::from_utf8(resolve_fn_decls(text, &other).unwrap()).unwrap(), "\n");
}

#[test]
fn resolve_end_marker_found_by_prefix() {
    let state = State::new();
    let text = "\\begin_fn_decl $I_f\nX\n\\end_fn_decl $I_fg\nY\n";
    assert_eq!(String::from_utf8(resolve_fn_decls(text, &state).unwrap()).unwrap(), "\nY\n");
}

#[test]
fn name_sets_hold_each_name_once() {
    let mut set = NameSet::new();
    set.insert("$S_a");
    set.insert("$S_b");
    set.insert("$S_a");
    assert_eq!(set.len(), 2);
    assert_eq!(set.at(0), "$S_a");
    assert_eq!(set.at(1), "$S_b");
    set.remove("$S_a");
    assert_eq!(set.len(), 1);
    assert!(!set.contains("$S_a"));
    let mut state = State::new();
    state.add_empty_struct("$S_a");
    state.add_empty_struct("$S_a");
    assert_eq!(state.empty_struct_count(), 1);
}

#[test]
fn labels_gotos_and_assembly_write_nothing() {
    let mut state = State::new();
    let labeled = Statement::Labeled(LabeledStatement { label: Label::Identifier, statement: Box::new(Statement::Break) });
    assert_eq!(transpile_statement(&labeled, &mut state), Some(String::new()));
    assert_eq!(transpile_statement(&Statement::Goto, &mut state), Some(String::new()));
    assert_eq!(transpile_statement(&Statement::Asm, &mut state), Some(String::new()));
    let block = Statement::Compound(vec![BlockItem::Statement(Statement::Break), BlockItem::Statement(Statement::Continue)]);
    assert_eq!(transpile_statement(&block, &mut state), Some("break;\ncontinue;\n".to_string()));
}

#[test]
fn declaration_specifier_kinds() {
    let mut state = State::new();
    assert_eq!(transpile_declaration_specifier(&DeclarationSpecifier::Alignment, &mut state, true), None);
    assert_eq!(transpile_declaration_specifier(&DeclarationSpecifier::Function, &mut state, true), Some(String::new()));
    assert_eq!(transpile_declaration_specifier(&DeclarationSpecifier::Extension, &mut state, true), Some(String::new()));
    assert_eq!(transpile_declaration_specifier(&ts(TypeSpecifier::Int), &mut state, true), Some("\\int".to_string()));
}

#[test]
fn diagnostics_are_kept_in_order() {
    let mut state = State::new();
    assert_eq!(state.warnings().len(), 0);
    let unknown = decl(vec![ts(TypeSpecifier::TypedefName("size_t".to_string()))], vec![named("n", Vec::new())]);
    assert_eq!(transpile_declaration(&unknown, &mut state, true), Some("size_t  $I_n;\n".to_string()));
    let typedef_alone = decl(vec![DeclarationSpecifier::StorageClass(StorageClassSpecifier::Typedef), ts(TypeSpecifier::Int)], Vec::new());
    assert_eq!(transpile_declaration(&typedef_alone, &mut state, true), Some("i32 ;\n".to_string()));
    assert_eq!(transpile_declaration_specifier(&DeclarationSpecifier::StorageClass(StorageClassSpecifier::Auto), &mut state, true), None);
    assert_eq!(
        state.warnings(),
        &vec![
            "!! Unknown typedef: $T_size_t".to_string(),
            "!! Typedef without declarators: i32 ".to_string(),
            "!! auto keyword not supported".to_string(),
        ]
    );
}

#[test]
fn switch_diagnostics_come_first() {
    let mut state = State::new();
    let body = Statement::Compound(vec![
        BlockItem::Statement(Statement::Break),
        BlockItem::Statement(Statement::Labeled(LabeledStatement { label: Label::Identifier, statement: Box::new(Statement::Break) })),
    ]);
    let sw = SwitchStatement { expression: Box::new(id("x")), statement: Box::new(body) };
    assert!(transpile_switch_statement(&sw, &mut state).is_some());
    assert_eq!(
        state.warnings(),
        &vec![
            "!! Unknown switch statement (dangling statement with no label before it)".to_string(),
            "!! Unknown label".to_string(),
        ]
    );
    let mut state = State::new();
    let sw = SwitchStatement { expression: Box::new(id("x")), statement: Box::new(Statement::Break) };
    assert!(transpile_switch_statement(&sw, &mut state).is_some());
    assert_eq!(state.warnings(), &vec!["!! Unknown switch statement (not compound)".to_string()]);
}

#[test]
fn unfolded_specifiers_are_reported() {
    let mut state = State::new();
    assert_eq!(shrink_specifiers("\\long \\long \\long ".to_string(), &mut state), "i64 i32 ");
    assert_eq!(shrink_specifiers("\\long \\long ".to_string(), &mut state), "i64 ");
    assert_eq!(state.warnings(), &vec!["!! Unknown specifiers: \\long \\long \\long ".to_string()]);
}
