use ts_schema::normalize::{normalize_canonical, normalize_debug};

#[test]
fn canonical_collapses_newline_runs() {
    assert_eq!(normalize_canonical("a\n\n\nb"), "a\nb");
    assert_eq!(normalize_canonical("\n"), "\n");
}

#[test]
fn canonical_empties_padded_pairs() {
    assert_eq!(normalize_canonical("[  ]"), "[]");
    assert_eq!(normalize_canonical("{ }"), "{}");
    assert_eq!(normalize_canonical("x [ ]"), "x[]");
    assert_eq!(normalize_canonical("[ \n ]"), "[]");
}

#[test]
fn canonical_leaves_filled_pairs() {
    assert_eq!(normalize_canonical("[ x ]"), "[ x ]");
    assert_eq!(normalize_canonical("{ x }"), "{ x }");
    assert_eq!(normalize_canonical("[]"), "[]");
}

#[test]
fn canonical_leftmost_pattern_wins() {
    // the newline alternative claims the leading newline before the bracket
    // pattern can reach across it
    assert_eq!(normalize_canonical("\n[ ]"), "\n[]");
    // a non-newline space is absorbed by the bracket pattern instead
    assert_eq!(normalize_canonical(" [ ]"), "[]");
}

#[test]
fn canonical_brace_inside_brackets() {
    assert_eq!(normalize_canonical("[ { } ]"), "[ {} ]");
}

#[test]
fn canonical_idempotent() {
    let raw = " [  ]x{ }\n\ny [ z ]\n{  }[ \n ]";
    let once = normalize_canonical(raw);
    let twice = normalize_canonical(&once);
    assert_eq!(twice, once);
}

#[test]
fn debug_spaces_newline_runs() {
    assert_eq!(normalize_debug("a\n\n\nb"), "a b");
}

#[test]
fn debug_keeps_one_interior_space() {
    assert_eq!(normalize_debug("[   ]"), " [ ]");
    assert_eq!(normalize_debug("{   }"), "{ }");
}

#[test]
fn modes_rewrite_the_same_spans() {
    // the two modes differ only in the replacement text
    let raw = "a{  }b[  ]c\n\nd";
    assert_eq!(normalize_canonical(raw), "a{}b[]c\nd");
    assert_eq!(normalize_debug(raw), "a{ }b [ ]c d");
}
