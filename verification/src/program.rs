//! An assembled program: its syntax tree, its labels and its machine code.
use vstd::prelude::*;
use std::collections::HashMap;

verus! {

/// A node of the syntax tree that the parser builds; each assembles to one word.
pub trait LCNode {
    /// The word that this node assembles to.
    spec fn encoding(&self) -> u16;

    /// Assembles this node.
    fn to_binary(&self) -> (w: u16)
        ensures
            w == self.encoding(),
    ;
}

pub type NodeVec = Vec<Box<dyn LCNode>>;

pub type LabelMap = HashMap<String, u16>;

/// The words that the nodes of `tree` assemble to, in order.
pub open spec fn encodings(tree: Seq<Box<dyn LCNode>>) -> Seq<u16> {
    Seq::new(tree.len(), |i: int| tree[i].encoding())
}

pub struct Program {
    tree: NodeVec,
    labels: LabelMap,
    binary: Vec<u16>,
}

impl Program {
    pub closed spec fn tree(&self) -> Seq<Box<dyn LCNode>> {
        self.tree@
    }

    pub closed spec fn labels(&self) -> LabelMap {
        self.labels
    }

    pub closed spec fn binary(&self) -> Seq<u16> {
        self.binary@
    }

    /// A program of the given nodes and labels, not yet assembled.
    pub fn from(tree: NodeVec, labels: LabelMap) -> (p: Self)
        ensures
            p.tree() == tree@,
            p.labels() == labels,
            p.binary() == Seq::<u16>::empty(),
    {
        Self { tree, labels, binary: vec![] }
    }

    /// Whether this program is `before` with its machine code assembled: the
    /// same nodes and labels, and the words that the nodes assemble to.
    pub open spec fn is_assembled_from(self, before: Program) -> bool {
        &&& self.tree() == before.tree()
        &&& self.labels() == before.labels()
        &&& self.binary() == encodings(before.tree())
    }

    /// Assembles every node, in order, into the machine code.
    pub fn to_binary(&mut self)
        ensures
            final(self).is_assembled_from(*old(self)),
    {
        self.binary.clear();
        let mut i: usize = 0;
        while i < self.tree.len()
            invariant
                self.tree@ == old(self).tree@,
                self.labels == old(self).labels,
                i <= self.tree@.len(),
                self.binary@.len() == i,
                forall|j: int| 0 <= j < i ==> self.binary@[j] == (#[trigger] self.tree@[j]).encoding(),
            decreases self.tree@.len() - i,
        {
            let w = self.tree[i].to_binary();
            self.binary.push(w);
            i += 1;
        }
        assert(self.binary@ =~= encodings(self.tree@));
    }

    /// The number of nodes in the syntax tree.
    pub fn node_count(&self) -> (n: usize)
        ensures
            n == self.tree().len(),
    {
        self.tree.len()
    }

    /// The machine code that the last `to_binary` produced.
    pub fn get_binary(&self) -> (b: &Vec<u16>)
        ensures
            b@ == self.binary(),
    {
        &self.binary
    }
}

/// Assembling puts, at every index of the tree, the word that the node at that
/// index assembles to, whatever the nodes before it are; nothing else.
pub proof fn lemma_to_binary_words(p: Program, assembled: Program)
    requires
        assembled.is_assembled_from(p),
    ensures
        assembled.binary().len() == p.tree().len(),
        forall|i: int| 0 <= i < p.tree().len() ==> #[trigger] assembled.binary()[i] == p.tree()[i].encoding(),
{
}

/// Assembling a program a second time gives the same machine code.
pub proof fn lemma_to_binary_idempotent(p: Program, once: Program, twice: Program)
    requires
        once.is_assembled_from(p),
        twice.is_assembled_from(once),
    ensures
        twice.binary() == once.binary(),
        twice.is_assembled_from(p),
{
}

} // verus!
