use c_compiler::symbol_table::{
    create_new_stnode, ScopeTree, SymbolTable, TreeMethods, MAX_ORDINAL, WORD_SIZE,
};

fn s(text: &str) -> String {
    text.to_string()
}

#[test]
fn fresh_frame_is_empty() {
    let node = create_new_stnode(3);
    assert_eq!(node.scope_index, 0);
    assert_eq!(node.table.ordinal, 3);
    assert!(node.table.symbol_table.is_empty());
    assert_eq!(node.parent, None);
    assert!(node.children.is_empty());
}

#[test]
fn insert_assigns_offsets_by_ordinal() {
    let mut table = SymbolTable::new(1);
    table.insert(&s("a"), &s("int"), false);
    table.insert(&s("b"), &s("bool"), false);
    table.insert(&s("c"), &s("char"), true);
    assert_eq!(table.ordinal, 4);
    let offsets: Vec<i32> = table.symbol_table.iter().map(|b| b.symbol.addr).collect();
    assert_eq!(offsets, vec![8, 16, 24]);
    let a = table.query(&s("a")).unwrap();
    assert_eq!(a.primitive, "int");
    assert_eq!(a.addr, 8);
    assert_eq!(a.size, 8);
    assert_eq!(a.register, -1);
    assert!(!a.func);
    let c = table.query(&s("c")).unwrap();
    assert_eq!(c.primitive, "char");
    assert_eq!(c.addr, WORD_SIZE * 3);
    assert!(c.func);
    assert!(table.query(&s("d")).is_none());
}

#[test]
fn offsets_grow_strictly_with_every_declaration() {
    let mut table = SymbolTable::new(5);
    let mut last = i32::MIN;
    for (k, name) in ["p", "q", "r", "s", "t", "u"].iter().enumerate() {
        table.insert(&s(name), &s("int"), false);
        let addr = table.query(&s(name)).unwrap().addr;
        assert_eq!(addr, 8 * (5 + k as i32));
        assert!(addr > last);
        last = addr;
    }
}

#[test]
fn arguments_lie_above_the_frame_pointer_and_do_not_move_the_ordinal() {
    let mut table = SymbolTable::new(1);
    table.insert_argument(&s("n"), &s("int"), 2);
    assert_eq!(table.ordinal, 1);
    let n = table.query(&s("n")).unwrap();
    assert_eq!(n.primitive, "int");
    assert_eq!(n.addr, 16);
    assert_eq!(n.size, 8);
    assert_eq!(n.register, -1);
    assert!(!n.func);
    assert!(n.argument);
    table.insert(&s("x"), &s("int"), false);
    let x = table.query(&s("x")).unwrap();
    assert_eq!(x.addr, 8);
    assert!(!x.argument);
    table.insert_argument(&s("m"), &s("bool"), 1);
    assert_eq!(table.query(&s("m")).unwrap().addr, 8);
    assert_eq!(table.ordinal, 2);
}

#[test]
fn accepts_tells_whether_a_name_can_be_declared() {
    let mut table = SymbolTable::new(1);
    assert!(table.accepts(&s("x")));
    table.insert(&s("x"), &s("int"), false);
    assert!(!table.accepts(&s("x")));
    assert!(table.accepts(&s("y")));
    table.ordinal = MAX_ORDINAL;
    assert!(table.accepts(&s("y")));
    table.insert(&s("y"), &s("int"), false);
    assert_eq!(table.query(&s("y")).unwrap().addr, 2147483640);
    assert!(!table.accepts(&s("z")));
}

#[test]
fn find_gives_the_index_of_a_declaration() {
    let mut table = SymbolTable::new(1);
    table.insert(&s("a"), &s("int"), false);
    table.insert(&s("b"), &s("int"), false);
    assert_eq!(table.find(&s("a")), Some(0));
    assert_eq!(table.find(&s("b")), Some(1));
    assert_eq!(table.find(&s("c")), None);
}

#[test]
fn modify_register_changes_only_the_register() {
    let mut table = SymbolTable::new(1);
    table.insert(&s("a"), &s("int"), false);
    table.insert(&s("b"), &s("bool"), true);
    table.modify_register(&s("b"), 4);
    let b = table.query(&s("b")).unwrap();
    assert_eq!(b.register, 4);
    assert_eq!(b.primitive, "bool");
    assert_eq!(b.addr, 16);
    assert_eq!(b.size, 8);
    assert!(b.func);
    assert_eq!(table.query(&s("a")).unwrap().register, -1);
    assert_eq!(table.symbol_table.len(), 2);
    assert_eq!(table.ordinal, 3);
}

#[test]
fn inner_declaration_shadows_the_outer_one() {
    let mut tree = ScopeTree::new(1);
    tree.bind(0, &s("x"), &s("int"), false);
    let inner = tree.push_child(0, tree.get_ordinal(0));
    tree.bind(inner, &s("x"), &s("bool"), false);
    let seen_inside = tree.scope_lookup(inner, &s("x")).unwrap();
    assert_eq!(seen_inside.primitive, "bool");
    assert_eq!(seen_inside.addr, 16);
    let seen_outside = tree.scope_lookup(0, &s("x")).unwrap();
    assert_eq!(seen_outside.primitive, "int");
    assert_eq!(seen_outside.addr, 8);
}

#[test]
fn lookup_walks_up_to_the_root() {
    let mut tree = ScopeTree::new(1);
    tree.bind(0, &s("g"), &s("int"), true);
    let f = tree.push_child(0, 1);
    tree.bind(f, &s("a"), &s("int"), false);
    let block = tree.push_child(f, tree.get_ordinal(f));
    let deeper = tree.push_child(block, tree.get_ordinal(block));
    tree.bind(deeper, &s("z"), &s("char"), false);
    assert_eq!(tree.scope_lookup(deeper, &s("z")).unwrap().primitive, "char");
    assert_eq!(tree.scope_lookup(deeper, &s("a")).unwrap().addr, 8);
    assert!(tree.scope_lookup(deeper, &s("g")).unwrap().func);
    assert!(tree.scope_lookup(deeper, &s("nowhere")).is_none());
    // An outer frame does not see into a block.
    assert!(tree.scope_lookup(f, &s("z")).is_none());
    assert!(tree.scope_lookup(0, &s("a")).is_none());
    assert_eq!(tree.owner(deeper, &s("a")), Some(f));
    assert_eq!(tree.owner(deeper, &s("g")), Some(0));
    assert_eq!(tree.owner(deeper, &s("nowhere")), None);
}

#[test]
fn push_child_links_parent_and_child() {
    let mut tree = ScopeTree::new(1);
    let first = tree.push_child(0, 5);
    let second = tree.push_child(0, 6);
    let nested = tree.push_child(first, 7);
    assert_eq!((first, second, nested), (1, 2, 3));
    assert_eq!(tree.len(), 4);
    assert_eq!(tree.nodes[0].children, vec![1, 2]);
    assert_eq!(tree.nodes[1].children, vec![3]);
    assert_eq!(tree.nodes[1].parent, Some(0));
    assert_eq!(tree.nodes[3].parent, Some(1));
    assert_eq!(tree.get_ordinal(first), 5);
    assert_eq!(tree.get_ordinal(nested), 7);
    assert_eq!(tree.get_table(second).ordinal, 6);
    assert!(tree.get_table(second).symbol_table.is_empty());
}

#[test]
fn nested_block_goes_on_counting_where_its_parent_stands() {
    let mut tree = ScopeTree::new(1);
    tree.bind(0, &s("a"), &s("int"), false);
    tree.bind(0, &s("b"), &s("int"), false);
    let block = tree.push_child(0, tree.get_ordinal(0));
    tree.bind(block, &s("c"), &s("int"), false);
    assert_eq!(tree.scope_lookup(block, &s("c")).unwrap().addr, 24);
    // The parent goes on from its own ordinal.
    tree.bind(0, &s("d"), &s("int"), false);
    assert_eq!(tree.scope_lookup(0, &s("d")).unwrap().addr, 24);
}

#[test]
fn in_table_looks_at_one_frame_only() {
    let mut tree = ScopeTree::new(1);
    tree.bind(0, &s("x"), &s("int"), false);
    let inner = tree.push_child(0, 2);
    assert!(tree.in_table(0, &s("x")));
    assert!(!tree.in_table(inner, &s("x")));
    assert!(!tree.in_table(0, &s("y")));
}

#[test]
fn bind_arg_declares_an_argument() {
    let mut tree = ScopeTree::new(1);
    let f = tree.push_child(0, 1);
    tree.bind_arg(f, &s("n"), &s("int"), 1);
    let n = tree.scope_lookup(f, &s("n")).unwrap();
    assert_eq!(n.addr, 8);
    assert!(n.argument);
    assert_eq!(tree.get_ordinal(f), 1);
    tree.bind_arg(f, &s("m"), &s("int"), 3);
    assert_eq!(tree.scope_lookup(f, &s("m")).unwrap().addr, 24);
    assert_eq!(tree.get_ordinal(f), 1);
}

#[test]
fn modify_register_reaches_the_owning_frame() {
    let mut tree = ScopeTree::new(1);
    tree.bind(0, &s("x"), &s("int"), false);
    let inner = tree.push_child(0, 2);
    tree.bind(inner, &s("y"), &s("int"), false);
    tree.modify_register(inner, &s("x"), 3);
    assert_eq!(tree.scope_lookup(0, &s("x")).unwrap().register, 3);
    tree.modify_register(inner, &s("y"), 5);
    assert_eq!(tree.scope_lookup(inner, &s("y")).unwrap().register, 5);
    assert_eq!(tree.scope_lookup(inner, &s("x")).unwrap().register, 3);
    // A name that is declared nowhere changes nothing.
    tree.modify_register(inner, &s("z"), 1);
    assert!(tree.scope_lookup(inner, &s("z")).is_none());
    assert_eq!(tree.nodes[0].table.symbol_table.len(), 1);
    assert_eq!(tree.nodes[1].table.symbol_table.len(), 1);
}

#[test]
fn modify_register_prefers_the_inner_declaration() {
    let mut tree = ScopeTree::new(1);
    tree.bind(0, &s("x"), &s("int"), false);
    let inner = tree.push_child(0, 2);
    tree.bind(inner, &s("x"), &s("bool"), false);
    tree.modify_register(inner, &s("x"), 6);
    assert_eq!(tree.scope_lookup(inner, &s("x")).unwrap().register, 6);
    assert_eq!(tree.scope_lookup(0, &s("x")).unwrap().register, -1);
}

#[test]
fn children_are_walked_in_the_order_they_were_made() {
    let mut tree = ScopeTree::new(1);
    let a = tree.push_child(0, 1);
    let b = tree.push_child(0, 1);
    assert_eq!(tree.next_child(0), Some(a));
    tree.advance(0);
    assert_eq!(tree.next_child(0), Some(b));
    tree.advance(0);
    assert_eq!(tree.next_child(0), None);
    assert_eq!(tree.next_child(a), None);
}

#[test]
fn rollback_cuts_the_tree_back_to_a_mark() {
    let mut tree = ScopeTree::new(1);
    tree.bind(0, &s("a"), &s("int"), false);
    let f = tree.push_child(0, 1);
    let mark = tree.mark(0);
    tree.bind(0, &s("b"), &s("int"), false);
    let g = tree.push_child(0, 1);
    tree.bind(g, &s("c"), &s("int"), false);
    tree.push_child(g, 2);
    assert_eq!(tree.len(), 4);
    tree.rollback(0, &mark);
    assert_eq!(tree.len(), 2);
    assert_eq!(tree.nodes[0].children, vec![f]);
    assert_eq!(tree.get_ordinal(0), 2);
    assert!(tree.in_table(0, &s("a")));
    assert!(!tree.in_table(0, &s("b")));
    // The cut frame can be grown again.
    tree.bind(0, &s("b"), &s("bool"), false);
    assert_eq!(tree.scope_lookup(0, &s("b")).unwrap().addr, 16);
}

#[test]
fn duplicate_of_a_symbol_is_equal_in_every_field() {
    let mut table = SymbolTable::new(2);
    table.insert(&s("v"), &s("float"), true);
    table.modify_register(&s("v"), 2);
    let symbol = table.query(&s("v")).unwrap();
    let copy = symbol.duplicate();
    assert_eq!(copy.primitive, symbol.primitive);
    assert_eq!(copy.addr, symbol.addr);
    assert_eq!(copy.size, symbol.size);
    assert_eq!(copy.register, symbol.register);
    assert_eq!(copy.func, symbol.func);
    assert_eq!(copy.argument, symbol.argument);
}
