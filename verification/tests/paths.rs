use docdoc::paths::{map_destination, split_segments};

#[test]
fn destination_with_skip_drops_first_segment() {
    assert_eq!(map_destination("a/b/c.md", "out", true), "out/b/c.html");
}

#[test]
fn destination_without_skip_keeps_all_segments() {
    assert_eq!(map_destination("a/b/c.md", "out", false), "out/a/b/c.html");
}

#[test]
fn destination_of_html_path_is_unchanged() {
    assert_eq!(map_destination("a/b/c.html", "out", false), "out/a/b/c.html");
}

#[test]
fn destination_swaps_only_the_final_component() {
    assert_eq!(map_destination("a/x.md/c.txt", "out", false), "out/a/x.md/c.txt");
}

#[test]
fn destination_swaps_md_inside_final_name_only_at_the_end() {
    assert_eq!(map_destination("a/c.md.txt", "out", false), "out/a/c.md.txt");
}

#[test]
fn destination_of_single_segment_with_skip_is_the_root() {
    assert_eq!(map_destination("c.md", "out", true), "out");
}

#[test]
fn destination_of_empty_source_is_the_root() {
    assert_eq!(map_destination("", "out", false), "out");
}

#[test]
fn destination_ignores_dot_and_dot_dot_segments() {
    assert_eq!(map_destination("./a/../b.md", "out", false), "out/a/b.html");
}

#[test]
fn destination_ignores_duplicate_separators() {
    assert_eq!(map_destination("a//b.md", "out", false), "out/a/b.html");
}

#[test]
fn destination_of_rooted_source_keeps_root_out_of_segments() {
    assert_eq!(map_destination("/docs/guide/setup.md", "", true), "/guide/setup.html");
}

#[test]
fn segments_drop_empty_dot_and_dot_dot() {
    let segs = split_segments("/a//./b/../c.md/");
    let segs: Vec<&str> = segs.iter().map(|s| s.as_str()).collect();
    assert_eq!(segs, vec!["a", "b", "c.md"]);
}
