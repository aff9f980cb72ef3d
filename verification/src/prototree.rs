//! A minimal fixed-branching tree builder: each node carries a two-number
//! payload and expands into two children per level down to a target depth.

use vstd::prelude::*;

verus! {

/// The payload of a tree node.
#[derive(Debug)]
pub struct GameState {
    pub data: [i32; 2],
}

/// A node of the toy tree.
#[derive(Debug)]
pub struct Node {
    pub depth: i32,
    pub game_state: GameState,
    pub children: Vec<Node>,
}

/// A node is fully expanded for a target depth: a node at the target has no
/// children, and any other node has exactly two, one level deeper, each
/// carrying the next two numbers and expanded in turn.
pub open spec fn spec_expanded(n: Node, target: int) -> bool
    decreases n,
{
    if n.depth >= target {
        n.children@.len() == 0
    } else {
        &&& n.children@.len() == 2
        &&& forall|i: int|
            0 <= i < 2 ==> (#[trigger] n.children@[i]).depth == n.depth + 1
                && n.children@[i].game_state.data@ =~= seq![
                (n.depth + 1) as i32,
                (n.depth + 2) as i32,
            ] && spec_expanded(n.children@[i], target)
    }
}

impl Node {
    /// A fresh, childless node.
    pub fn new(depth: i32, game_state: GameState) -> (node: Node)
        ensures
            node.depth == depth,
            node.game_state == game_state,
            node.children@.len() == 0,
    {
        Node { depth: depth, game_state: game_state, children: Vec::new() }
    }

    /// Expands a childless node into the full two-way tree of the target
    /// depth.
    pub fn build(&mut self, target_depth: i32)
        requires
            old(self).children@.len() == 0,
            old(self).depth <= target_depth,
            target_depth < 1000000,
        ensures
            spec_expanded(*final(self), target_depth as int),
            final(self).depth == old(self).depth,
            final(self).game_state == old(self).game_state,
        decreases target_depth - old(self).depth,
    {
        if self.depth == target_depth {
            return ;
        }

        let mut sibling_index: usize = 0;
        while sibling_index < 2
            invariant
                sibling_index <= 2,
                self.depth == old(self).depth,
                self.game_state == old(self).game_state,
                self.depth < target_depth,
                target_depth < 1000000,
                self.children@.len() == sibling_index,
                forall|i: int|
                    0 <= i < sibling_index ==> (#[trigger] self.children@[i]).depth == self.depth
                        + 1 && self.children@[i].game_state.data@ =~= seq![
                        (self.depth + 1) as i32,
                        (self.depth + 2) as i32,
                    ] && spec_expanded(self.children@[i], target_depth as int),
            decreases 2 - sibling_index,
        {
            let gs = GameState { data: [self.depth + 1, self.depth + 2] };
            let mut node = Node::new(self.depth + 1, gs);

            node.build(target_depth);

            self.children.push(node);
            sibling_index = sibling_index + 1;
        }
    }
}

} // verus!
