use skribi::expressions::Exp;
use skribi::graph::render_diagram;
use skribi::lexer::tokenize;
use skribi::registry::TypeRegistry;
use skribi::skr_errors::{CustomError, NotYetImplementedType};
use skribi::vars::{VarDec, VarMod};

fn parse_dec(source: &str) -> VarDec {
    let reg = TypeRegistry::new();
    let mut tokens = tokenize(String::from(source)).unwrap();
    VarDec::parse(&mut tokens, &reg).unwrap().unwrap()
}

#[test]
fn test_render_private_declaration() {
    let dec = parse_dec("pu int x 5");
    let expected = "\nsubgraph VarDec_0[VarDec]\
                    \nsubgraph PrivateVar_1[PrivateVar]\
                    \nsubgraph Vd_2[Vd x]\
                    \nsubgraph CGet_3[CGet int]\
                    \nend\nend\nend\nend";
    assert_eq!(expected, render_diagram(&dec));
}

#[test]
fn test_render_const_global_declaration() {
    let dec = parse_dec("ju fu string s \"v\"");
    let expected = "\nsubgraph VarDec_0[VarDec]\
                    \nsubgraph ConstVar_1[ConstVar]\
                    \nsubgraph GlobalVar_2[GlobalVar]\
                    \nsubgraph Vd_3[Vd s]\
                    \nsubgraph CGet_4[CGet string]\
                    \nend\nend\nend\nend\nend";
    assert_eq!(expected, render_diagram(&dec));
}

#[test]
fn test_render_var_mod_numbers_child() {
    let m = VarMod::new(Exp::Int(String::from("7")));
    let mut graph = String::new();
    let mut id: usize = 0;
    m.graph_display(&mut graph, &mut id);
    assert_eq!(
        "\nsubgraph VarMod_0[VarMod]\nsubgraph Exp_1[Exp]\nend\nend",
        graph
    );
    assert_eq!(2, id);
}

#[test]
fn test_render_numbers_above_nine() {
    let dec = parse_dec("int x 5");
    let mut graph = String::new();
    let mut id: usize = 12;
    dec.graph_display(&mut graph, &mut id);
    assert!(graph.starts_with("\nsubgraph VarDec_12[VarDec]"));
    assert_eq!(15, id);
}

#[test]
fn test_error_model_values() {
    let a = CustomError::NotYetImplemented(NotYetImplementedType::MissingSymbol(String::from(
        "pow",
    )));
    let b = CustomError::NotYetImplemented(NotYetImplementedType::MissingSymbol(String::from(
        "pow",
    )));
    let c = CustomError::NotYetImplemented(NotYetImplementedType::MissingGrammar(String::from(
        "pow",
    )));
    assert_eq!(a, b);
    assert_ne!(a, c);
    assert_ne!(a, CustomError::UnexpectedToken(String::from("pow")));
}

#[test]
fn test_render_id_chain() {
    let mut reg = TypeRegistry::new();
    reg.register(String::from("dar"));
    let mut tokens = tokenize(String::from("maxi:mini:dar")).unwrap();
    let chain = skribi::id_nodes::IdGet::parse(&mut tokens, &reg)
        .unwrap()
        .unwrap();
    let mut graph = String::new();
    let mut id: usize = 0;
    chain.graph_display(&mut graph, &mut id);
    let expected = "\nsubgraph IdGet_0[IdGet maxi]\
                    \nsubgraph IdGet_1[IdGet mini]\
                    \nsubgraph CGet_2[CGet dar]\
                    \nend\nend\nend";
    assert_eq!(expected, graph);
    assert_eq!(3, id);
}
