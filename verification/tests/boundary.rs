use ui::boundary::next_boundary;
use ui::boundary::next_boundary_in;
use ui::boundary::previous_boundary;
use ui::boundary::previous_boundary_in;

#[test]
fn previous_boundary_in_picks_last_start_below() {
    let starts = vec![0, 3, 6, 11];
    assert_eq!(previous_boundary_in(&starts, 0), 0);
    assert_eq!(previous_boundary_in(&starts, 1), 0);
    assert_eq!(previous_boundary_in(&starts, 3), 0);
    assert_eq!(previous_boundary_in(&starts, 4), 3);
    assert_eq!(previous_boundary_in(&starts, 11), 6);
    assert_eq!(previous_boundary_in(&starts, 13), 11);
    assert_eq!(previous_boundary_in(&Vec::new(), 5), 0);
}

#[test]
fn next_boundary_in_picks_first_start_above() {
    let starts = vec![0, 3, 6, 11];
    assert_eq!(next_boundary_in(&starts, 13, 0), 3);
    assert_eq!(next_boundary_in(&starts, 13, 2), 3);
    assert_eq!(next_boundary_in(&starts, 13, 3), 6);
    assert_eq!(next_boundary_in(&starts, 13, 10), 11);
    assert_eq!(next_boundary_in(&starts, 13, 11), 13);
    assert_eq!(next_boundary_in(&starts, 13, 40), 13);
    assert_eq!(next_boundary_in(&Vec::new(), 0, 0), 0);
}

#[test]
fn boundaries_follow_grapheme_clusters() {
    let text = "a\u{310}e\u{301}o\u{308}\u{332}\r\n";
    assert_eq!(text.len(), 13);
    assert_eq!(previous_boundary(text, 13), 11);
    assert_eq!(previous_boundary(text, 11), 6);
    assert_eq!(previous_boundary(text, 6), 3);
    assert_eq!(previous_boundary(text, 3), 0);
    assert_eq!(previous_boundary(text, 0), 0);
    assert_eq!(next_boundary(text, 0), 3);
    assert_eq!(next_boundary(text, 3), 6);
    assert_eq!(next_boundary(text, 6), 11);
    assert_eq!(next_boundary(text, 11), 13);
    assert_eq!(next_boundary(text, 13), 13);
}

#[test]
fn boundaries_of_empty_text() {
    assert_eq!(previous_boundary("", 0), 0);
    assert_eq!(next_boundary("", 0), 0);
    assert_eq!(previous_boundary("", 7), 0);
    assert_eq!(next_boundary("", 7), 0);
}

#[test]
fn stepping_right_visits_each_cluster_once() {
    let text = "a\u{1F1E9}\u{1F1EA}\u{4F60}e\u{301}!";
    let mut visited = vec![0];
    let mut at = 0;
    while at < text.len() {
        let next = next_boundary(text, at);
        assert!(next > at);
        visited.push(next);
        at = next;
    }
    assert_eq!(visited, vec![0, 1, 9, 12, 15, 16]);
}

#[test]
fn stepping_back_and_forth_returns_to_boundary() {
    let text = "a\u{1F1E9}\u{1F1EA}\u{4F60}e\u{301}!";
    for o in [1usize, 9, 12, 15, 16] {
        assert_eq!(next_boundary(text, previous_boundary(text, o)), o);
        assert!(o <= next_boundary(text, o));
    }
}
