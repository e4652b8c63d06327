use mail_reducer::select::{
    search_criterion, select, sequence_set, CalendarDate, DEFAULT_MAX_BATCH,
};

#[test]
fn batch_is_truncated_to_nine() {
    let candidates: Vec<u32> = (1..=15).rev().collect();
    let chosen = select(&candidates, DEFAULT_MAX_BATCH);
    assert_eq!(chosen.len(), 9);
    assert_eq!(chosen, candidates[..9].to_vec());
}

#[test]
fn short_batch_is_kept_whole() {
    assert_eq!(select(&vec![4, 2, 7], 9), vec![4, 2, 7]);
    assert_eq!(select(&vec![], 9), Vec::<u32>::new());
    assert_eq!(select(&vec![1, 2], 0), Vec::<u32>::new());
}

#[test]
fn sequence_set_joins_with_commas() {
    assert_eq!(sequence_set(&vec![3, 10, 407]), "3,10,407".to_string());
    assert_eq!(sequence_set(&vec![0]), "0".to_string());
    assert_eq!(sequence_set(&vec![]), "".to_string());
}

#[test]
fn criterion_has_sender_and_cutoff() {
    let since = CalendarDate { year: 2024, month: 3, day: 5 };
    assert_eq!(
        search_criterion("no-reply@connpass.com", &since),
        "FROM no-reply@connpass.com SINCE 05-Mar-2024".to_string()
    );
    let since = CalendarDate { year: 987, month: 12, day: 31 };
    assert_eq!(search_criterion("x", &since), "FROM x SINCE 31-Dec-0987".to_string());
}
