use j2_passes::cfg::CfgNode;

#[test]
fn test_cfg_node_display() {
    let bb0 = CfgNode::Block(0);
    assert_eq!(bb0.to_string(), "bb0");
    assert_eq!(CfgNode::Exit.to_string(), "EXIT");
}

#[test]
fn test_cfg_node_is_exit() {
    assert!(!CfgNode::Block(0).is_exit());
    assert!(CfgNode::Exit.is_exit());
}

#[test]
fn test_cfg_node_as_block() {
    let bb = 5usize;
    assert_eq!(CfgNode::Block(bb).as_block(), Some(bb));
    assert_eq!(CfgNode::Exit.as_block(), None);
}
