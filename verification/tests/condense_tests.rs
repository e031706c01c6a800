use cflow::addressing::{push_dec, write_ascending, write_separated, write_variable};
use cflow::condense::condense_jump_table;

#[test]
fn condense_example_three_runs() {
    // A table with three maximal runs condenses to exactly three tuples.
    let r = condense_jump_table(&[0, 0, 0, 1, 1, 2]);
    assert_eq!(r, vec![(0, 2, 0), (3, 4, 1), (5, 5, 2)]);
}

#[test]
fn condense_empty() {
    let r = condense_jump_table(&[]);
    assert_eq!(r, vec![]);
}

#[test]
fn condense_single() {
    let r = condense_jump_table(&[7]);
    assert_eq!(r, vec![(0, 0, 7)]);
}

#[test]
fn condense_all_equal() {
    let r = condense_jump_table(&[4, 4, 4, 4]);
    assert_eq!(r, vec![(0, 3, 4)]);
}

#[test]
fn condense_alternating() {
    // No two adjacent values are equal, so nothing can be merged.
    let r = condense_jump_table(&[1, 0, 1, 0]);
    assert_eq!(r, vec![(0, 0, 1), (1, 1, 0), (2, 2, 1), (3, 3, 0)]);
}

#[test]
fn condense_repeated_target_not_adjacent() {
    // Equal targets separated by a different one stay separate runs.
    let r = condense_jump_table(&[5, 5, 9, 5]);
    assert_eq!(r, vec![(0, 1, 5), (2, 2, 9), (3, 3, 5)]);
}

#[test]
fn decimal_rendering() {
    let mut buf = String::new();
    push_dec(&mut buf, 0);
    assert_eq!(buf, "0");
    let mut buf = String::new();
    push_dec(&mut buf, 907);
    assert_eq!(buf, "907");
    let mut buf = String::new();
    push_dec(&mut buf, 18446744073709551615);
    assert_eq!(buf, "18446744073709551615");
}

#[test]
fn ascending_names() {
    let mut buf = String::new();
    write_ascending("reg", 0, 3, &mut buf);
    assert_eq!(buf, "reg_0, reg_1, reg_2");
    let mut buf = String::new();
    write_ascending("param", 2, 3, &mut buf);
    assert_eq!(buf, "param_2");
    let mut buf = String::new();
    write_ascending("loc", 4, 4, &mut buf);
    assert_eq!(buf, "");
}

#[test]
fn separated_items() {
    let mut buf = String::new();
    write_separated("0LL", 3, &mut buf);
    assert_eq!(buf, "0LL, 0LL, 0LL");
    let mut buf = String::new();
    write_separated("0", 0, &mut buf);
    assert_eq!(buf, "");
}

#[test]
fn variable_addressing() {
    // The first num_param slots are parameters, the rest are locals.
    let mut buf = String::new();
    write_variable(1, 2, &mut buf);
    assert_eq!(buf, "param_1 ");
    let mut buf = String::new();
    write_variable(2, 2, &mut buf);
    assert_eq!(buf, "loc_0 ");
    let mut buf = String::new();
    write_variable(5, 2, &mut buf);
    assert_eq!(buf, "loc_3 ");
}
