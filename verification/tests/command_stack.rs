use piquant_world::command_stack::{parser_for, CommandStack, Node, NodeData, Parser};
use piquant_world::{ArgumentDef, CommandDef};

fn argument(name: &'static str, ty: &'static str) -> ArgumentDef {
    ArgumentDef { name, ty, optional: false }
}

#[test]
fn parser_follows_the_name_of_the_type() {
    assert_eq!(parser_for("i64"), Parser::Integer);
    assert_eq!(parser_for("f64"), Parser::Float);
    assert_eq!(parser_for("bool"), Parser::Bool);
    assert_eq!(parser_for("string"), Parser::QuotablePhrase);
    assert_eq!(parser_for(""), Parser::QuotablePhrase);
    assert_eq!(parser_for("i64 "), Parser::QuotablePhrase);
    assert_eq!(parser_for("I64"), Parser::QuotablePhrase);
    assert_eq!(parser_for("u8"), Parser::QuotablePhrase);
}

#[test]
fn empty_stack_lists_a_root_alone() {
    let stack = CommandStack::new();
    assert_eq!(stack.len(), 0);
    let (root, nodes) = stack.list();
    assert_eq!(root, 0);
    assert_eq!(
        nodes,
        vec![Node {
            children: Vec::new(),
            data: NodeData::Root,
            executable: false,
            redirect_node: None,
        }]
    );
}

#[test]
fn commands_stand_after_their_arguments_and_the_root_last() {
    let mut stack = CommandStack::new();
    stack.register(CommandDef {
        name: "setblock",
        description: None,
        arguments: vec![
            argument("x", "i64"),
            argument("y", "f64"),
            argument("solid", "bool"),
            argument("block_type", "string"),
        ],
    });
    stack.register(CommandDef {
        name: "seed",
        description: Some("Tells the seed".to_string()),
        arguments: Vec::new(),
    });
    stack.register(CommandDef {
        name: "test",
        description: None,
        arguments: vec![ArgumentDef { name: "str", ty: "Option<String>", optional: true }],
    });
    assert_eq!(stack.len(), 8);
    let (root, nodes) = stack.list();
    assert_eq!(root, 8);
    let leaf = |name: &'static str, parser: Parser| Node {
        children: Vec::new(),
        data: NodeData::Argument { name, parser },
        executable: true,
        redirect_node: None,
    };
    let command = |name: &'static str, children: Vec<i32>| Node {
        children,
        data: NodeData::Literal { name },
        executable: true,
        redirect_node: None,
    };
    assert_eq!(
        nodes,
        vec![
            leaf("x", Parser::Integer),
            leaf("y", Parser::Float),
            leaf("solid", Parser::Bool),
            leaf("block_type", Parser::QuotablePhrase),
            command("setblock", vec![0, 1, 2, 3]),
            command("seed", Vec::new()),
            leaf("str", Parser::QuotablePhrase),
            command("test", vec![6]),
            Node {
                children: vec![4, 5, 7],
                data: NodeData::Root,
                executable: false,
                redirect_node: None,
            },
        ]
    );
    let (again, same) = stack.list();
    assert_eq!(again, 8);
    assert_eq!(same, nodes);
}
