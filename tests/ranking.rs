use fruit_box::leaderboard::{Leaderboard, Score, TOP_N};

fn board_of(scores: &[usize]) -> Leaderboard {
    let mut l = Leaderboard::new();
    for s in scores {
        l.record(*s);
    }
    l
}

#[test]
fn three_results_ranked_with_latest_included() {
    let l = board_of(&[12, 30, 8]);
    assert_eq!(l.scores, vec![
        Score { id: 1, score: 12 },
        Score { id: 2, score: 30 },
        Score { id: 3, score: 8 }
    ]);
    let top: Vec<usize> = l.top_scores(TOP_N).iter().map(|s| s.score).collect();
    assert_eq!(top, vec![30, 12, 8]);
    let st = l.standings().unwrap();
    assert_eq!(st.latest, Score { id: 3, score: 8 });
    assert_eq!(st.extra, None);
    assert_eq!(st.top.len(), 3);
}

#[test]
fn top_five_of_seven() {
    let l = board_of(&[3, 9, 1, 7, 5, 8, 2]);
    let top: Vec<usize> = l.top_scores(5).iter().map(|s| s.score).collect();
    assert_eq!(top, vec![9, 8, 7, 5, 3]);
}

#[test]
fn equal_scores_rank_earlier_round_first() {
    let l = board_of(&[4, 6, 4, 6]);
    let top = l.top_scores(5);
    let ids: Vec<usize> = top.iter().map(|s| s.id).collect();
    assert_eq!(ids, vec![2, 4, 1, 3]);
}

#[test]
fn latest_outside_top_gets_extra_row() {
    let l = board_of(&[10, 20, 30, 40, 50, 1]);
    let st = l.standings().unwrap();
    assert_eq!(st.top.len(), 5);
    assert_eq!(st.latest, Score { id: 6, score: 1 });
    assert_eq!(st.extra, Some(Score { id: 6, score: 1 }));
}

#[test]
fn latest_tied_with_fifth_loses_the_tie() {
    let l = board_of(&[5, 5, 5, 5, 5, 5]);
    let st = l.standings().unwrap();
    let ids: Vec<usize> = st.top.iter().map(|s| s.id).collect();
    assert_eq!(ids, vec![1, 2, 3, 4, 5]);
    assert_eq!(st.extra, Some(Score { id: 6, score: 5 }));
}

#[test]
fn latest_in_top_gets_no_extra_row() {
    let l = board_of(&[10, 20, 30, 40, 50, 45]);
    let st = l.standings().unwrap();
    let top: Vec<usize> = st.top.iter().map(|s| s.score).collect();
    assert_eq!(top, vec![50, 45, 40, 30, 20]);
    assert_eq!(st.extra, None);
}

#[test]
fn empty_leaderboard() {
    let l = Leaderboard::new();
    assert_eq!(l.count(), 0);
    assert_eq!(l.most_recent(), None);
    assert!(l.top_scores(5).is_empty());
    assert!(l.standings().is_none());
}

#[test]
fn record_hands_out_sequential_ids() {
    let mut l = Leaderboard::new();
    assert_eq!(l.record(7), Score { id: 1, score: 7 });
    assert_eq!(l.record(0), Score { id: 2, score: 0 });
    assert_eq!(l.count(), 2);
    assert_eq!(l.most_recent(), Some(Score { id: 2, score: 0 }));
}

#[test]
fn top_zero_is_empty() {
    let l = board_of(&[1, 2]);
    assert!(l.top_scores(0).is_empty());
}
