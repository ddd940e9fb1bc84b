use skribi::expressions::Exp;
use skribi::interpret::{
    create_variable, execute, execute_var_mod, interpret, is_variable_type, ExecutionContext,
    LineAction,
};
use skribi::lexer::tokenize;
use skribi::registry::TypeRegistry;
use skribi::variables::{
    new_variable, parse_i32_word, RuntimeError, VariableStruct, VariableType,
};
use skribi::vars::{Type, VarDec, VarMod, Vd};

fn line(words: &[&str]) -> Vec<String> {
    words.iter().map(|w| String::from(*w)).collect()
}

fn parse_dec(source: &str) -> VarDec {
    let reg = TypeRegistry::new();
    let mut tokens = tokenize(String::from(source)).unwrap();
    VarDec::parse(&mut tokens, &reg).unwrap().unwrap()
}

#[test]
fn test_conflicting_modifiers_fail() {
    // global and private together always fail, in either order
    let res = new_variable(&line(&["fu", "pu", "int", "x", "5"]), 1);
    assert_eq!(Err(RuntimeError::ConflictingModifiers), res);

    let res = new_variable(&line(&["pu", "fu", "int", "x", "5"]), 1);
    assert_eq!(Err(RuntimeError::ConflictingModifiers), res);
}

#[test]
fn test_duplicated_modifier_fails() {
    let res = new_variable(&line(&["pu", "pu", "int", "x", "5"]), 1);
    assert_eq!(
        Err(RuntimeError::DuplicatedModifier(String::from("pu"))),
        res
    );
}

#[test]
fn test_new_variable_values() {
    let v = new_variable(&line(&["int", "x", "5"]), 2).unwrap();
    assert_eq!(String::from("x"), v.name);
    assert_eq!(VariableType::Integer(5), v.value);
    assert_eq!(2, v.scope_level);
    assert!(!v.is_constant);

    let v = new_variable(&line(&["fu", "string", "s", "hi"]), 2).unwrap();
    assert_eq!(VariableType::String(String::from("hi")), v.value);
    assert_eq!(0, v.scope_level);

    let v = new_variable(&line(&["ju", "float", "f", "1.5"]), 2).unwrap();
    assert_eq!(VariableType::Float(String::from("1.5")), v.value);
    assert!(v.is_constant);

    let v = new_variable(&line(&["bool", "b", "true"]), 2).unwrap();
    assert_eq!(VariableType::Boolean(true), v.value);

    let v = new_variable(&line(&["null", "n"]), 2).unwrap();
    assert_eq!(VariableType::Null, v.value);

    let v = new_variable(&line(&["int", "m", "-12"]), 2).unwrap();
    assert_eq!(VariableType::Integer(-12), v.value);

    let v = new_variable(&line(&["int", "p", "+5"]), 2).unwrap();
    assert_eq!(VariableType::Integer(5), v.value);

    let v = new_variable(&line(&["float", "g", "+0.5"]), 2).unwrap();
    assert_eq!(VariableType::Float(String::from("+0.5")), v.value);
}

#[test]
fn test_new_variable_errors() {
    let res = new_variable(&line(&["dar", "x", "5"]), 1);
    assert_eq!(Err(RuntimeError::UnknownType(String::from("dar"))), res);

    let res = new_variable(&line(&["int", "x", "5a"]), 1);
    assert_eq!(Err(RuntimeError::InvalidValue(String::from("5a"))), res);

    let res = new_variable(&line(&["float", "f", "1.2.3"]), 1);
    assert_eq!(Err(RuntimeError::InvalidValue(String::from("1.2.3"))), res);

    // exponent spellings are not float literal words
    let res = new_variable(&line(&["float", "f", "1e5"]), 1);
    assert_eq!(Err(RuntimeError::InvalidValue(String::from("1e5"))), res);

    let res = new_variable(&line(&["bool", "b", "zzz"]), 1);
    assert_eq!(Err(RuntimeError::InvalidValue(String::from("zzz"))), res);
}

#[test]
fn test_parse_i32_word_bounds() {
    assert_eq!(Some(2147483647), parse_i32_word(&String::from("2147483647")));
    assert_eq!(None, parse_i32_word(&String::from("2147483648")));
    assert_eq!(
        Some(-2147483648),
        parse_i32_word(&String::from("-2147483648"))
    );
    assert_eq!(None, parse_i32_word(&String::from("-2147483649")));
    assert_eq!(None, parse_i32_word(&String::from("99999999999999999999")));
    assert_eq!(None, parse_i32_word(&String::from("")));
    assert_eq!(None, parse_i32_word(&String::from("-")));
    assert_eq!(Some(0), parse_i32_word(&String::from("0")));
    assert_eq!(Some(5), parse_i32_word(&String::from("+5")));
    assert_eq!(None, parse_i32_word(&String::from("+")));
    assert_eq!(None, parse_i32_word(&String::from("+-5")));
}

#[test]
fn test_execute_declaration_and_duplicate() {
    // declaring `pu int x 5` inserts the binding; declaring the same name
    // again in the same scope fails with a duplicate-declaration error
    let mut ctx = ExecutionContext::new();
    let dec = parse_dec("pu int x 5");
    assert_eq!(Ok(()), execute(&dec, &mut ctx));
    assert_eq!(1, ctx.variables.len());
    assert_eq!(String::from("x"), ctx.variables[0].name);
    assert_eq!(VariableType::Integer(5), ctx.variables[0].value);
    assert!(!ctx.variables[0].is_constant);

    let again = parse_dec("pu int x 5");
    assert_eq!(
        Err(RuntimeError::DuplicateDeclaration(String::from("x"))),
        execute(&again, &mut ctx)
    );
    assert_eq!(1, ctx.variables.len());
}

#[test]
fn test_execute_global_binding_level() {
    let mut ctx = ExecutionContext::new();
    ctx.enter_scope();
    ctx.enter_scope();
    let dec = parse_dec("fu int g 1");
    assert_eq!(Ok(()), execute(&dec, &mut ctx));
    assert_eq!(0, ctx.variables[0].scope_level);

    let dec = parse_dec("pu int p 1");
    assert_eq!(Ok(()), execute(&dec, &mut ctx));
    assert_eq!(2, ctx.variables[1].scope_level);
}

#[test]
fn test_execute_constant_structure() {
    let mut ctx = ExecutionContext::new();
    let dec = parse_dec("ju fu int c 3");
    assert_eq!(Ok(()), execute(&dec, &mut ctx));
    assert!(ctx.variables[0].is_constant);
    assert_eq!(0, ctx.variables[0].scope_level);
}

#[test]
fn test_execute_unknown_type_at_runtime() {
    // `dar` may be registered for parsing, but it is no literal type
    let mut reg = TypeRegistry::new();
    reg.register(String::from("dar"));
    let mut tokens = tokenize(String::from("dar x 5")).unwrap();
    let dec = VarDec::parse(&mut tokens, &reg).unwrap().unwrap();
    let mut ctx = ExecutionContext::new();
    assert_eq!(
        Err(RuntimeError::UnknownType(String::from("dar"))),
        execute(&dec, &mut ctx)
    );
    assert_eq!(0, ctx.variables.len());
}

#[test]
fn test_execute_mismatched_value() {
    let dec = VarDec::Vd(Vd::new(
        Type {
            name: String::from("int"),
        },
        String::from("x"),
        Exp::String(String::from("oops")),
    ));
    let mut ctx = ExecutionContext::new();
    assert_eq!(
        Err(RuntimeError::MismatchedValue(String::from("int"))),
        execute(&dec, &mut ctx)
    );
}

#[test]
fn test_constant_mutation_always_fails() {
    // a constant binding rejects every mutation, whatever the new value's
    // type
    let mut v = VariableStruct::new(
        String::from("c"),
        VariableType::Integer(1),
        0,
        true,
    );
    assert_eq!(
        Err(RuntimeError::ConstantMutation),
        v.set_value(VariableType::Integer(2))
    );
    assert_eq!(
        Err(RuntimeError::ConstantMutation),
        v.set_value(VariableType::Boolean(false))
    );
    assert_eq!(
        Err(RuntimeError::ConstantMutation),
        v.set_value(VariableType::String(String::from("s")))
    );
    assert_eq!(VariableType::Integer(1), v.value);

    let mut ctx = ExecutionContext::new();
    let dec = parse_dec("ju int c 3");
    assert_eq!(Ok(()), execute(&dec, &mut ctx));
    let m = VarMod::new(Exp::Float(String::from("1.5")));
    assert_eq!(
        Err(RuntimeError::ConstantMutation),
        execute_var_mod(&String::from("c"), &m, &mut ctx)
    );
    assert_eq!(VariableType::Integer(3), ctx.variables[0].value);
}

#[test]
fn test_set_value_on_mutable_binding() {
    let mut v = VariableStruct::new(
        String::from("x"),
        VariableType::Integer(1),
        0,
        false,
    );
    assert_eq!(Ok(()), v.set_value(VariableType::Integer(9)));
    assert_eq!(VariableType::Integer(9), v.value);
}

#[test]
fn test_execute_var_mod_replaces_value() {
    let mut ctx = ExecutionContext::new();
    let dec = parse_dec("int x 5");
    assert_eq!(Ok(()), execute(&dec, &mut ctx));
    let m = VarMod::new(Exp::Int(String::from("7")));
    assert_eq!(Ok(()), execute_var_mod(&String::from("x"), &m, &mut ctx));
    assert_eq!(VariableType::Integer(7), ctx.variables[0].value);
}

#[test]
fn test_execute_var_mod_unknown_variable() {
    let mut ctx = ExecutionContext::new();
    let m = VarMod::new(Exp::Int(String::from("7")));
    assert_eq!(
        Err(RuntimeError::UnknownVariable(String::from("ghostly"))),
        execute_var_mod(&String::from("ghostly"), &m, &mut ctx)
    );
}

#[test]
fn test_scope_exit_removes_exactly_that_level() {
    // bindings created at the exited level disappear; shallower ones stay
    let mut ctx = ExecutionContext::new();
    assert_eq!(Ok(()), execute(&parse_dec("int g 1"), &mut ctx));
    ctx.enter_scope();
    assert_eq!(Ok(()), execute(&parse_dec("int a 2"), &mut ctx));
    assert_eq!(Ok(()), execute(&parse_dec("int b 3"), &mut ctx));
    assert_eq!(3, ctx.variables.len());

    ctx.exit_scope();
    assert_eq!(0, ctx.scope_level);
    let names: Vec<&String> = ctx.variables.iter().map(|v| &v.name).collect();
    assert_eq!(vec![&String::from("g")], names);
}

#[test]
fn test_scope_exit_keeps_deeper_history_order() {
    let mut ctx = ExecutionContext::new();
    assert_eq!(Ok(()), execute(&parse_dec("int g 1"), &mut ctx));
    ctx.enter_scope();
    assert_eq!(Ok(()), execute(&parse_dec("int a 2"), &mut ctx));
    ctx.enter_scope();
    assert_eq!(Ok(()), execute(&parse_dec("int z 9"), &mut ctx));
    ctx.exit_scope();
    let names: Vec<&String> = ctx.variables.iter().map(|v| &v.name).collect();
    assert_eq!(vec![&String::from("g"), &String::from("a")], names);
    assert_eq!(1, ctx.scope_level);
}

#[test]
fn test_interpret_dispatch() {
    let mut ctx = ExecutionContext::new();
    assert_eq!(
        Ok(LineAction::NativeCall),
        interpret(&line(&["skr_app", "print"]), 0, &mut ctx)
    );
    assert_eq!(0, ctx.variables.len());

    assert_eq!(
        Ok(LineAction::Declared),
        interpret(&line(&["int", "x", "5"]), 1, &mut ctx)
    );
    assert_eq!(1, ctx.variables.len());

    assert_eq!(
        Ok(LineAction::Declared),
        interpret(&line(&["pu", "int", "y", "6"]), 2, &mut ctx)
    );
    assert_eq!(2, ctx.variables.len());

    assert_eq!(
        Err(RuntimeError::UnknownCommand(String::from("bogus"), 3)),
        interpret(&line(&["bogus"]), 3, &mut ctx)
    );
}

#[test]
fn test_create_variable_duplicate() {
    let mut ctx = ExecutionContext::new();
    assert_eq!(Ok(()), create_variable(&line(&["int", "x", "5"]), &mut ctx));
    assert_eq!(
        Err(RuntimeError::DuplicateDeclaration(String::from("x"))),
        create_variable(&line(&["int", "x", "6"]), &mut ctx)
    );
}

#[test]
fn test_is_variable_type() {
    assert!(is_variable_type(&String::from("string")));
    assert!(is_variable_type(&String::from("float")));
    assert!(!is_variable_type(&String::from("dar")));
}
