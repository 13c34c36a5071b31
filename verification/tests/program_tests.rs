use lc3_tools::program::{LCNode, LabelMap, NodeVec, Program};

struct Word(u16);

impl LCNode for Word {
    fn encoding(&self) -> u16 {
        self.0
    }

    fn to_binary(&self) -> u16 {
        self.0
    }
}

#[test]
fn program_assembles_nodes_in_order() {
    let tree: NodeVec = vec![Box::new(Word(0x1265)), Box::new(Word(0xF025))];
    let mut program = Program::from(tree, LabelMap::new());
    assert!(program.get_binary().is_empty());
    program.to_binary();
    assert_eq!(program.get_binary(), &vec![0x1265, 0xF025]);
}

#[test]
fn assembling_twice_gives_same_binary() {
    let tree: NodeVec = vec![Box::new(Word(1)), Box::new(Word(2)), Box::new(Word(3))];
    let mut labels = LabelMap::new();
    labels.insert("start".to_string(), 0);
    let mut program = Program::from(tree, labels);
    program.to_binary();
    let first = program.get_binary().clone();
    program.to_binary();
    assert_eq!(program.get_binary(), &first);
}

#[test]
fn empty_tree_assembles_to_nothing() {
    let mut program = Program::from(Vec::new(), LabelMap::new());
    program.to_binary();
    assert!(program.get_binary().is_empty());
}
