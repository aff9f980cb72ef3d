use onitama::prototree::{GameState, Node};

#[test]
fn builds_a_perfect_two_way_tree() {
    let mut node = Node::new(0, GameState { data: [1, 2] });
    node.build(3);
    assert_eq!(node.depth, 0);
    assert_eq!(node.children.len(), 2);
    for child in node.children.iter() {
        assert_eq!(child.depth, 1);
        assert_eq!(child.game_state.data, [1, 2]);
        assert_eq!(child.children.len(), 2);
        for grandchild in child.children.iter() {
            assert_eq!(grandchild.depth, 2);
            assert_eq!(grandchild.game_state.data, [2, 3]);
            assert_eq!(grandchild.children.len(), 2);
            for leaf in grandchild.children.iter() {
                assert_eq!(leaf.depth, 3);
                assert_eq!(leaf.game_state.data, [3, 4]);
                assert_eq!(leaf.children.len(), 0);
            }
        }
    }
}

#[test]
fn target_depth_node_stays_a_leaf() {
    let mut node = Node::new(2, GameState { data: [5, 6] });
    node.build(2);
    assert_eq!(node.children.len(), 0);
    assert_eq!(node.game_state.data, [5, 6]);
}
