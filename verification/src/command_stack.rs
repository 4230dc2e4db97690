//! The tree of commands that a client is told of: a root, under it one
//! node for each command, and under each command one node for each of its
//! arguments. The nodes stand in one list and name each other by their
//! places in it.

use crate::parser::{ArgumentDef, CommandDef};
use crate::text::chars_of;
use vstd::prelude::*;

verus! {

/// How a client reads an argument as it is typed.
#[derive(Clone, Copy, Debug, PartialEq, Eq, Structural)]
pub enum Parser {
    Integer,
    Float,
    Bool,
    /// A word, or a phrase between quotes.
    QuotablePhrase,
}

/// What a node of the tree is.
#[derive(Clone, Copy, Debug, PartialEq, Eq)]
pub enum NodeData {
    Root,
    Literal { name: &'static str },
    Argument { name: &'static str, parser: Parser },
}

/// A node of the tree.
#[derive(Debug, PartialEq, Eq)]
pub struct Node {
    /// The places of the node's children in the list.
    pub children: Vec<i32>,
    pub data: NodeData,
    /// Whether the command may end at this node.
    pub executable: bool,
    pub redirect_node: Option<i32>,
}

/// The parser for an argument of the type with the given name.
pub open spec fn parser_of(ty: Seq<char>) -> Parser {
    if ty == seq!['i', '6', '4'] {
        Parser::Integer
    } else if ty == seq!['f', '6', '4'] {
        Parser::Float
    } else if ty == seq!['b', 'o', 'o', 'l'] {
        Parser::Bool
    } else {
        Parser::QuotablePhrase
    }
}

/// Whether a node is the node of an argument: it ends a command, reads
/// the argument by the parser for its type, and has no children.
pub open spec fn is_argument_node(node: Node, argument: ArgumentDef) -> bool {
    &&& node.children@.len() == 0
    &&& node.data == (NodeData::Argument {
        name: argument.name,
        parser: parser_of(argument.ty@),
    })
    &&& node.executable
    &&& node.redirect_node is None
}

/// Whether a node is the node of a command whose arguments stand in the
/// list from place `first` on.
pub open spec fn is_command_node(node: Node, command: CommandDef, first: int) -> bool {
    &&& node.children@.len() == command.arguments@.len()
    &&& forall|i: int| 0 <= i < node.children@.len() ==> #[trigger] node.children@[i] == first + i
    &&& node.data == (NodeData::Literal { name: command.name })
    &&& node.executable
    &&& node.redirect_node is None
}

/// Whether a node is the root over the commands at the given places.
pub open spec fn is_root_node(node: Node, commands: Seq<i32>) -> bool {
    &&& node.children@ == commands
    &&& node.data == NodeData::Root
    &&& !node.executable
    &&& node.redirect_node is None
}

/// Whether `after` is the list `before` with a command registered: the
/// nodes of its arguments are added in their order, and after them the
/// node of the command.
pub open spec fn registered(before: Seq<Node>, after: Seq<Node>, command: CommandDef) -> bool {
    &&& after.len() == before.len() + command.arguments@.len() + 1
    &&& forall|i: int| 0 <= i < before.len() ==> #[trigger] after[i] == before[i]
    &&& forall|i: int|
        0 <= i < command.arguments@.len() ==> is_argument_node(
            #[trigger] after[before.len() + i],
            command.arguments@[i],
        )
    &&& is_command_node(after[after.len() - 1], command, before.len() as int)
}

/// Whether two nodes hold the same.
pub open spec fn same_node(a: Node, b: Node) -> bool {
    &&& a.children@ == b.children@
    &&& a.data == b.data
    &&& a.executable == b.executable
    &&& a.redirect_node == b.redirect_node
}

/// The commands that were registered, as the nodes of their tree without
/// the root.
pub struct CommandStack {
    commands: Vec<Node>,
    command_ids: Vec<i32>,
}

fn is_text(ty: &Vec<char>, word: &Vec<char>) -> (same: bool)
    ensures
        same == (ty@ == word@),
{
    if ty.len() != word.len() {
        return false;
    }
    let mut i: usize = 0;
    while i < word.len()
        invariant
            ty@.len() == word@.len(),
            i <= word@.len(),
            forall|j: int| 0 <= j < i ==> ty@[j] == word@[j],
        decreases word@.len() - i,
    {
        if ty[i] != word[i] {
            return false;
        }
        i += 1;
    }
    assert(ty@ =~= word@);
    true
}

/// Picks the parser for an argument of the type with the given name.
pub fn parser_for(ty: &str) -> (parser: Parser)
    ensures
        parser == parser_of(ty@),
{
    let ty = chars_of(ty);
    let integer: Vec<char> = vec!['i', '6', '4'];
    let float: Vec<char> = vec!['f', '6', '4'];
    let boolean: Vec<char> = vec!['b', 'o', 'o', 'l'];
    if is_text(&ty, &integer) {
        Parser::Integer
    } else if is_text(&ty, &float) {
        Parser::Float
    } else if is_text(&ty, &boolean) {
        Parser::Bool
    } else {
        Parser::QuotablePhrase
    }
}

fn copy_places(places: &Vec<i32>) -> (copy: Vec<i32>)
    ensures
        copy@ == places@,
{
    let mut copy: Vec<i32> = Vec::new();
    let mut i: usize = 0;
    while i < places.len()
        invariant
            i <= places@.len(),
            copy@ == places@.subrange(0, i as int),
        decreases places@.len() - i,
    {
        copy.push(places[i]);
        assert(places@.subrange(0, i + 1) =~= places@.subrange(0, i as int).push(places@[i as int]));
        i += 1;
    }
    assert(places@.subrange(0, places@.len() as int) =~= places@);
    copy
}

impl CommandStack {
    /// The nodes of the registered commands and their arguments.
    pub closed spec fn nodes(&self) -> Seq<Node> {
        self.commands@
    }

    /// The places of the nodes of the commands, in the order in which the
    /// commands were registered.
    pub closed spec fn command_places(&self) -> Seq<i32> {
        self.command_ids@
    }

    /// Every place that is named lies in the list.
    pub open spec fn wf(&self) -> bool {
        &&& self.nodes().len() <= i32::MAX
        &&& forall|i: int|
            0 <= i < self.command_places().len() ==> 0 <= #[trigger] self.command_places()[i]
                < self.nodes().len()
        &&& forall|i: int, j: int|
            0 <= i < self.nodes().len() && 0 <= j < self.nodes()[i].children@.len() ==> 0
                <= #[trigger] self.nodes()[i].children@[j] < self.nodes().len()
    }

    /// A stack with no command registered.
    pub fn new() -> (stack: CommandStack)
        ensures
            stack.wf(),
            stack.nodes().len() == 0,
            stack.command_places().len() == 0,
    {
        CommandStack { commands: Vec::new(), command_ids: Vec::new() }
    }

    /// The number of nodes in the list.
    pub fn len(&self) -> (len: usize)
        ensures
            len == self.nodes().len(),
    {
        self.commands.len()
    }

    fn add(&mut self, node: Node) -> (place: i32)
        requires
            old(self).nodes().len() < i32::MAX,
        ensures
            final(self).nodes() == old(self).nodes().push(node),
            final(self).command_places() == old(self).command_places(),
            place == old(self).nodes().len(),
    {
        self.commands.push(node);
        (self.commands.len() - 1) as i32
    }

    /// Registers a command: adds the nodes of its arguments and then its
    /// own node, whose children they are.
    pub fn register(&mut self, command_def: CommandDef)
        requires
            old(self).wf(),
            old(self).nodes().len() + command_def.arguments@.len() < i32::MAX,
        ensures
            final(self).wf(),
            registered(old(self).nodes(), final(self).nodes(), command_def),
            final(self).command_places() == old(self).command_places().push(
                (final(self).nodes().len() - 1) as i32,
            ),
    {
        let ghost before = self.nodes();
        let ghost first = before.len() as int;
        let count: usize = command_def.arguments.len();
        let mut arg_ids: Vec<i32> = Vec::new();
        let mut k: usize = 0;
        while k < count
            invariant
                k <= count,
                count == command_def.arguments@.len(),
                first == before.len(),
                first + count < i32::MAX,
                self.command_places() == old(self).command_places(),
                self.nodes().len() == first + k,
                forall|i: int| 0 <= i < first ==> #[trigger] self.nodes()[i] == before[i],
                forall|i: int|
                    0 <= i < k ==> is_argument_node(
                        #[trigger] self.nodes()[first + i],
                        command_def.arguments@[i],
                    ),
                arg_ids@.len() == k,
                forall|i: int| 0 <= i < k ==> #[trigger] arg_ids@[i] == first + i,
            decreases count - k,
        {
            let arg = &command_def.arguments[k];
            let node = Node {
                children: Vec::new(),
                data: NodeData::Argument { name: arg.name, parser: parser_for(arg.ty) },
                executable: true,
                redirect_node: None,
            };
            let ghost nodes = self.nodes();
            let arg_id = self.add(node);
            arg_ids.push(arg_id);
            assert forall|i: int| 0 <= i < k + 1 implies is_argument_node(
                #[trigger] self.nodes()[first + i],
                command_def.arguments@[i],
            ) by {
                if i < k {
                    assert(self.nodes()[first + i] == nodes[first + i]);
                }
            }
            k += 1;
        }
        let command = Node {
            children: arg_ids,
            data: NodeData::Literal { name: command_def.name },
            executable: true,
            redirect_node: None,
        };
        let ghost nodes = self.nodes();
        let id = self.add(command);
        self.command_ids.push(id);
        proof {
            let after = self.nodes();
            assert forall|i: int|
                0 <= i < command_def.arguments@.len() implies is_argument_node(
                #[trigger] after[before.len() + i],
                command_def.arguments@[i],
            ) by {
                assert(after[first + i] == nodes[first + i]);
            }
            assert forall|i: int, j: int|
                0 <= i < after.len() && 0 <= j < after[i].children@.len() implies 0
                <= #[trigger] after[i].children@[j] < after.len() by {
                if i < first {
                    assert(after[i] == before[i]);
                } else if i < first + count {
                    assert(is_argument_node(after[first + (i - first)], command_def.arguments@[i - first]));
                }
            }
            assert forall|i: int| 0 <= i < self.command_places().len() implies 0
                <= #[trigger] self.command_places()[i] < after.len() by {
                if i < old(self).command_places().len() {
                    assert(self.command_places()[i] == old(self).command_places()[i]);
                }
            }
        }
    }

    /// The whole tree: the nodes of the commands and their arguments, and
    /// after them the root, whose place is given with the list.
    pub fn list(&self) -> (r: (i32, Vec<Node>))
        requires
            self.wf(),
            self.nodes().len() < i32::MAX,
        ensures
            r.1@.len() == self.nodes().len() + 1,
            r.0 == self.nodes().len(),
            forall|i: int|
                0 <= i < self.nodes().len() ==> same_node(#[trigger] r.1@[i], self.nodes()[i]),
            is_root_node(r.1@[r.0 as int], self.command_places()),
    {
        let mut nodes: Vec<Node> = Vec::new();
        let mut i: usize = 0;
        while i < self.commands.len()
            invariant
                i <= self.nodes().len(),
                nodes@.len() == i,
                forall|j: int| 0 <= j < i ==> same_node(#[trigger] nodes@[j], self.nodes()[j]),
            decreases self.nodes().len() - i,
        {
            let node = &self.commands[i];
            nodes.push(
                Node {
                    children: copy_places(&node.children),
                    data: node.data,
                    executable: node.executable,
                    redirect_node: node.redirect_node,
                },
            );
            i += 1;
        }
        let root_node = Node {
            children: copy_places(&self.command_ids),
            data: NodeData::Root,
            executable: false,
            redirect_node: None,
        };
        nodes.push(root_node);
        ((nodes.len() - 1) as i32, nodes)
    }
}

} // verus!
