//! The recurrence solver: the closed-form path against the direct,
//! memoized path, and the search itself.

use vm15::solver::{ack3, ack_by_table, solve_teleporter, teleporter_check};

#[test]
fn closed_form_equals_direct_evaluation_on_small_parameters() {
    for p in 1..=16u16 {
        assert_eq!(teleporter_check(p), ack_by_table(4, 1, p));
    }
}

#[test]
fn low_levels_match_their_closed_forms() {
    for p in [1u16, 2, 7, 100, 32767] {
        for n in [0u16, 1, 2, 5, 100] {
            assert_eq!(ack_by_table(0, n, p), (n + 1) % 32768);
            assert_eq!(
                ack_by_table(1, n, p),
                ((p as u32 + n as u32 + 1) % 32768) as u16
            );
            assert_eq!(
                ack_by_table(2, n, p),
                ((p as u32 * (n as u32 + 2) + n as u32 + 1) % 32768) as u16
            );
            assert_eq!(ack_by_table(3, n, p), ack3(n, p));
        }
    }
}

#[test]
fn the_search_finds_the_accepted_parameter() {
    let p = solve_teleporter().expect("a parameter must pass the check");
    assert_eq!(teleporter_check(p), 6);
    assert!((1..32768).contains(&p));
}
