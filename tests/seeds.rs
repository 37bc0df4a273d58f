use register_machine::memory_seed::parse_memory;
use register_machine::options::Options;
use std::collections::HashMap;

#[test]
fn seed_lines_become_cells() {
    let m = parse_memory("1 : 2\n  2:42  \r\n\n7:\t-3\n").unwrap();
    let expected: HashMap<u32, i32> = [(1, 2), (2, 42), (7, -3)].into_iter().collect();
    assert_eq!(m, expected);
}

#[test]
fn later_seed_line_wins() {
    let m = parse_memory("1:2\n1:5").unwrap();
    assert_eq!(m.get(&1), Some(&5));
    assert_eq!(m.len(), 1);
}

#[test]
fn empty_seed_is_empty_memory() {
    assert_eq!(parse_memory("").unwrap().len(), 0);
    assert_eq!(parse_memory("\n \n").unwrap().len(), 0);
}

#[test]
fn bad_seed_line_is_numbered() {
    assert_eq!(parse_memory("1:2\n\nfoo\n3:4"), Err(3));
    assert_eq!(parse_memory("1:"), Err(1));
    assert_eq!(parse_memory("1:2\n2 3"), Err(2));
    assert_eq!(parse_memory("1:2 x"), Err(1));
    assert_eq!(parse_memory("-1:2"), Err(1));
}

#[test]
fn options_start_with_defaults() {
    let o = Options::new();
    assert_eq!(o.program, "");
    assert!(!o.verbose && !o.debug && !o.print_program && !o.print_memory);
    assert!(o.run);
    assert_eq!(o.memory, None);
    assert_eq!(o.maximum_steps, None);
}
