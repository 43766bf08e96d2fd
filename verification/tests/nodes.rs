use contents_exporter::markdown::{
    all_nodes_writable, longest_run_of, writable, DocumentNode, BACKTICK, MAX_CODE_RUN,
    MAX_DELIMITER_LEN,
};

fn code(literal: &str) -> DocumentNode {
    DocumentNode::Code { literal: literal.as_bytes().to_vec() }
}

#[test]
fn longest_run_counts_the_longest_run() {
    assert_eq!(longest_run_of(&b"".to_vec(), BACKTICK), 0);
    assert_eq!(longest_run_of(&b"abc".to_vec(), BACKTICK), 0);
    assert_eq!(longest_run_of(&b"`".to_vec(), BACKTICK), 1);
    assert_eq!(longest_run_of(&b"a``b`c```".to_vec(), BACKTICK), 3);
    assert_eq!(longest_run_of(&b"````a``b`c".to_vec(), BACKTICK), 4);
    assert_eq!(longest_run_of(&b"a`b`c`".to_vec(), BACKTICK), 1);
    assert_eq!(longest_run_of(&b"aaXaaaX".to_vec(), b'a'), 3);
}

#[test]
fn limits_are_as_documented() {
    assert_eq!(BACKTICK, b'`');
    assert_eq!(MAX_CODE_RUN, 30);
    assert_eq!(MAX_DELIMITER_LEN, 4096);
}

#[test]
fn code_span_is_writable_up_to_the_longest_run() {
    assert!(writable(&code("a")));
    assert!(writable(&code(&format!("a{}b", "`".repeat(30)))));
    assert!(!writable(&code(&format!("a{}b", "`".repeat(31)))));
    assert!(!writable(&code(&format!("{}b", "`".repeat(32)))));
    assert!(!writable(&code("")));
    assert!(writable(&DocumentNode::Other));
    assert!(writable(&DocumentNode::Image { url: "`".repeat(40).into_bytes() }));
    assert!(writable(&DocumentNode::FrontMatter { text: "`".repeat(40).into_bytes() }));
}

#[test]
fn one_unwritable_node_spoils_the_list() {
    assert!(all_nodes_writable(&Vec::new()));
    assert!(all_nodes_writable(&vec![DocumentNode::Other, code("a"), code("b``c")]));
    assert!(!all_nodes_writable(&vec![DocumentNode::Other, code("a"), code("")]));
    assert!(!all_nodes_writable(&vec![code(&"`".repeat(31)), code("a")]));
}
