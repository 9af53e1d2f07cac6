use clikit::tree::{assemble_level, format_tree, plan_level, DirNode, EntryInfo, LevelPlan};

const GLYPH: &str = "\u{2514}\u{2500}\u{2500}";

fn file(name: &str) -> DirNode {
    DirNode::new(name.to_string(), false, Vec::new())
}

fn dir(name: &str, children: Vec<DirNode>) -> DirNode {
    DirNode::new(name.to_string(), true, children)
}

#[test]
fn tree_scenario_root_with_file_and_subdirectory() {
    // root/ holds a.txt and sub/, and sub/ holds b.txt.
    let nodes = vec![file("a.txt"), dir("sub", vec![file("b.txt")])];
    let lines = format_tree(&nodes, 1);
    let expected = vec![
        format!("{}a.txt\n", GLYPH),
        format!("{}sub\n", GLYPH),
        format!("   {}b.txt\n", GLYPH),
    ];
    assert_eq!(lines, expected);
    let joined: String = lines.concat();
    assert_eq!(joined, format!("{g}a.txt\n{g}sub\n   {g}b.txt\n", g = GLYPH));
}

#[test]
fn render_is_deterministic() {
    let nodes = vec![dir("outer", vec![file("inner.txt")]), file("tail")];
    let first = format_tree(&nodes, 1);
    let second = format_tree(&nodes, 1);
    assert_eq!(first, second);
}

#[test]
fn indentation_grows_one_unit_per_depth() {
    let nodes = vec![dir("one", vec![dir("two", vec![file("three")])])];
    let lines = format_tree(&nodes, 1);
    assert_eq!(lines.len(), 3);
    assert_eq!(lines[0], format!("{}one\n", GLYPH));
    assert_eq!(lines[1], format!("   {}two\n", GLYPH));
    assert_eq!(lines[2], format!("      {}three\n", GLYPH));
}

#[test]
fn starting_indent_level_shifts_every_line() {
    let nodes = vec![file("a")];
    let lines = format_tree(&nodes, 3);
    assert_eq!(lines, vec![format!("      {}a\n", GLYPH)]);
}

#[test]
fn empty_forest_renders_nothing() {
    let lines = format_tree(&Vec::new(), 1);
    assert!(lines.is_empty());
}

#[test]
fn plan_level_stops_on_exhausted_budget() {
    let entries = vec![
        EntryInfo { name: "a.txt".to_string(), is_dir: false },
        EntryInfo { name: "sub".to_string(), is_dir: true },
    ];
    let plan = plan_level("root", &entries, 0);
    assert!(matches!(plan, LevelPlan::Stop));
}

#[test]
fn plan_level_descends_into_directories() {
    let entries = vec![
        EntryInfo { name: "a.txt".to_string(), is_dir: false },
        EntryInfo { name: "sub".to_string(), is_dir: true },
    ];
    match plan_level("root", &entries, -1) {
        LevelPlan::Stop => panic!("expected a descent plan"),
        LevelPlan::Descend(plans) => {
            assert_eq!(plans.len(), 2);
            assert!(plans[0].is_none());
            let rp = plans[1].as_ref().expect("directory entry gets a plan");
            assert_eq!(rp.subpath, "root/sub");
            assert_eq!(rp.budget, -2);
        }
    }
}

#[test]
fn plan_level_decrements_positive_budget() {
    let entries = vec![EntryInfo { name: "sub".to_string(), is_dir: true }];
    match plan_level("top", &entries, 1) {
        LevelPlan::Stop => panic!("expected a descent plan"),
        LevelPlan::Descend(plans) => {
            let rp = plans[0].as_ref().expect("directory entry gets a plan");
            assert_eq!(rp.subpath, "top/sub");
            assert_eq!(rp.budget, 0);
        }
    }
}

#[test]
fn assemble_level_keeps_every_entry_in_order() {
    let entries = vec![
        EntryInfo { name: "a.txt".to_string(), is_dir: false },
        EntryInfo { name: "sub".to_string(), is_dir: true },
    ];
    let subtrees = vec![Vec::new(), vec![file("b.txt")]];
    let nodes = assemble_level(entries, subtrees);
    assert_eq!(nodes.len(), 2);
    assert_eq!(nodes[0].name, "a.txt");
    assert!(!nodes[0].is_directory);
    assert!(nodes[0].children.is_empty());
    assert_eq!(nodes[1].name, "sub");
    assert!(nodes[1].is_directory);
    assert_eq!(nodes[1].children.len(), 1);
    assert_eq!(nodes[1].children[0].name, "b.txt");
}

#[test]
fn planned_walk_keeps_one_node_per_entry() {
    // Drive the level functions the way a filesystem walk does, over a
    // fixed listing, and check the node count and names match the listing.
    let listing = vec![
        EntryInfo { name: "one".to_string(), is_dir: false },
        EntryInfo { name: "two".to_string(), is_dir: false },
        EntryInfo { name: "three".to_string(), is_dir: true },
    ];
    let plan = plan_level("base", &listing, -1);
    let plans = match plan {
        LevelPlan::Stop => panic!("unlimited budget never stops"),
        LevelPlan::Descend(plans) => plans,
    };
    let mut subtrees = Vec::new();
    for p in &plans {
        match p {
            None => subtrees.push(Vec::new()),
            // An empty subdirectory: its own walk returns no nodes.
            Some(_) => subtrees.push(Vec::new()),
        }
    }
    let nodes = assemble_level(listing, subtrees);
    assert_eq!(nodes.len(), 3);
    let names: Vec<&str> = nodes.iter().map(|n| n.name.as_str()).collect();
    assert_eq!(names, vec!["one", "two", "three"]);
}

#[test]
fn node_with_children_is_a_directory() {
    let d = dir("sub", vec![file("x")]);
    assert!(d.is_directory);
    let f = file("plain");
    assert!(f.children.is_empty());
}
