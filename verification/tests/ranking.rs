use launcher::ranking::{rank, MAX_VISIBLE};

#[test]
fn no_scores_no_rows() {
    assert_eq!(rank(&vec![]), Vec::<usize>::new());
}

#[test]
fn unscored_candidates_are_left_out() {
    assert_eq!(rank(&vec![None, Some(5), None]), vec![1]);
    assert_eq!(rank(&vec![None, None]), Vec::<usize>::new());
}

#[test]
fn higher_score_comes_first() {
    assert_eq!(rank(&vec![Some(3), None, Some(7), Some(5)]), vec![2, 3, 0]);
    assert_eq!(rank(&vec![Some(-4), Some(-9), Some(0)]), vec![2, 0, 1]);
}

#[test]
fn equal_scores_keep_list_order() {
    assert_eq!(rank(&vec![Some(4), Some(9), Some(4), Some(9), Some(4)]), vec![1, 3, 0, 2, 4]);
}

#[test]
fn view_is_cut_after_ten_rows() {
    assert_eq!(MAX_VISIBLE, 10);
    let scores: Vec<Option<i64>> = (0..25).map(|s| Some(s)).collect();
    assert_eq!(rank(&scores), vec![24, 23, 22, 21, 20, 19, 18, 17, 16, 15]);
    let flat: Vec<Option<i64>> = (0..25).map(|_| Some(1)).collect();
    assert_eq!(rank(&flat), vec![0, 1, 2, 3, 4, 5, 6, 7, 8, 9]);
}

#[test]
fn the_best_ten_are_kept_wherever_they_stand() {
    let mut scores: Vec<Option<i64>> = Vec::new();
    for i in 0..30i64 {
        scores.push(if i % 3 == 0 { None } else { Some((i * 7) % 11) });
    }
    let rows = rank(&scores);
    let mut expected: Vec<usize> = (0..30).filter(|i| scores[*i].is_some()).collect();
    expected.sort_by(|a, b| scores[*b].cmp(&scores[*a]).then(a.cmp(b)));
    expected.truncate(10);
    assert_eq!(rows, expected);
}

#[test]
fn extreme_scores_are_ordered() {
    assert_eq!(rank(&vec![Some(i64::MIN), Some(i64::MAX), Some(0)]), vec![1, 2, 0]);
}

#[test]
fn ranking_twice_gives_the_same_rows() {
    let scores = vec![Some(2), Some(8), None, Some(8), Some(1)];
    assert_eq!(rank(&scores), rank(&scores));
    assert_eq!(rank(&scores), vec![1, 3, 0, 4]);
}
