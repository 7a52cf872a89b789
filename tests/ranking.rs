use backend::db::{check_rows_affected, LeaderBoardRow, Store};
use backend::error::AppError;
use backend::leaderboard::LeaderBoard;
use backend::page::{score_guess, DistancePage, MAX_SCORE};
use backend::session::Claims;

fn row(id: i32, total_score: u64) -> LeaderBoardRow {
    LeaderBoardRow { id, rank: 0, total_score, num_guesses: 0 }
}

fn rank_of(store: &Store, id: i32) -> u64 {
    store.rows().iter().find(|r| r.id == id).unwrap().rank
}

#[test]
fn tied_totals_share_the_top_rank() {
    let mut store = Store::with_rows(vec![row(1, 0), row(2, 0), row(3, 0)]).unwrap();
    store.update_score(100, 1).unwrap();
    store.update_score(100, 2).unwrap();
    store.update_score(80, 3).unwrap();
    assert_eq!(rank_of(&store, 1), 1);
    assert_eq!(rank_of(&store, 2), 1);
    assert_eq!(rank_of(&store, 3), 2);
}

#[test]
fn dense_ranks_leave_no_gap() {
    let mut store = Store::with_rows(vec![row(1, 50), row(2, 50), row(3, 30), row(4, 10)]).unwrap();
    store.update_score(0, 4).unwrap();
    let ranks: Vec<u64> = store.rows().iter().map(|r| r.rank).collect();
    assert_eq!(ranks, vec![1, 1, 2, 3]);
}

#[test]
fn update_adds_points_and_one_guess() {
    let mut store = Store::with_rows(vec![row(7, 10), row(8, 40)]).unwrap();
    store.update_score(35, 7).unwrap();
    let rows = store.rows();
    assert_eq!(rows[0], LeaderBoardRow { id: 7, rank: 1, total_score: 45, num_guesses: 1 });
    assert_eq!(rows[1], LeaderBoardRow { id: 8, rank: 2, total_score: 40, num_guesses: 0 });
}

#[test]
fn unknown_user_fails_and_changes_nothing() {
    let mut store = Store::with_rows(vec![row(1, 5), row(2, 9)]).unwrap();
    let before = store.rows();
    assert_eq!(store.update_score(10, 99), Err(AppError::UserDoesNotExist));
    assert_eq!(store.rows(), before);
}

#[test]
fn overflowing_total_fails_and_changes_nothing() {
    let mut store = Store::with_rows(vec![row(1, u64::MAX - 3)]).unwrap();
    let before = store.rows();
    assert_eq!(store.update_score(4, 1), Err(AppError::InternalServerError));
    assert_eq!(store.rows(), before);
    assert_eq!(store.update_score(3, 1), Ok(()));
    assert_eq!(store.rows()[0].total_score, u64::MAX);
}

#[test]
fn duplicate_ids_are_refused() {
    assert!(matches!(Store::with_rows(vec![row(1, 0), row(1, 3)]), Err(AppError::InternalServerError)));
    assert!(Store::with_rows(vec![]).is_ok());
    assert!(Store::new().rows().is_empty());
}

#[test]
fn top_never_exceeds_its_size() {
    let mut store = Store::with_rows(vec![row(3, 100), row(1, 100), row(2, 80), row(4, 0)]).unwrap();
    store.update_score(0, 4).unwrap();
    let top = store.get_top_num_users(1);
    assert_eq!(top.len(), 1);
    assert_eq!(top[0].id, 1);
    let top = store.get_top_num_users(2);
    assert_eq!(top.iter().map(|r| r.id).collect::<Vec<_>>(), vec![1, 3]);
    let top = store.get_top_num_users(3);
    assert_eq!(top.iter().map(|r| r.id).collect::<Vec<_>>(), vec![1, 3, 2]);
    for n in 0..6 {
        let top = store.get_top_num_users(n);
        assert!(top.len() <= n as usize);
        assert!(top.iter().all(|r| r.rank >= 1 && r.rank <= n as u64));
    }
}

#[test]
fn top_of_all_ranked_rows_in_rank_order() {
    let mut store = Store::with_rows(vec![row(5, 10), row(6, 30), row(7, 20)]).unwrap();
    store.update_score(0, 5).unwrap();
    let top = store.get_top_num_users(100);
    assert_eq!(top.iter().map(|r| (r.id, r.rank)).collect::<Vec<_>>(), vec![(6, 1), (7, 2), (5, 3)]);
}

#[test]
fn unranked_rows_stay_off_the_top() {
    let store = Store::with_rows(vec![row(1, 10), row(2, 20)]).unwrap();
    assert!(store.get_top_num_users(10).is_empty());
    assert!(store.get_top_num_users(-4).is_empty());
}

#[test]
fn leaderboard_holds_the_top_rows() {
    let mut store = Store::with_rows(vec![row(1, 10), row(2, 20)]).unwrap();
    store.update_score(5, 1).unwrap();
    let board = LeaderBoard::populate_top_num_users(1, &store);
    assert_eq!(board.user_list().len(), 1);
    assert_eq!(board.user_list()[0].id, 2);
    let direct = LeaderBoard::new(vec![row(9, 1)]);
    assert_eq!(direct.user_list(), &vec![row(9, 1)]);
}

#[test]
fn row_count_must_be_one() {
    assert_eq!(check_rows_affected(1), Ok(()));
    assert_eq!(check_rows_affected(0), Err(AppError::InternalServerError));
    assert_eq!(check_rows_affected(2), Err(AppError::InternalServerError));
}

#[test]
fn exact_guess_scores_the_maximum() {
    assert_eq!(DistancePage::calculate_score(0), MAX_SCORE);
    assert_eq!(DistancePage::calculate_score(999), MAX_SCORE);
}

#[test]
fn one_degree_of_latitude_scores_less() {
    let score = DistancePage::calculate_score(111_195);
    assert_eq!(score, 4889);
    assert!(score < MAX_SCORE);
}

#[test]
fn farther_guesses_never_score_more() {
    let distances = [0u64, 1, 999, 1000, 1001, 50_000, 4_999_999, 5_000_000, 20_000_000, u64::MAX];
    for pair in distances.windows(2) {
        assert!(DistancePage::calculate_score(pair[0]) >= DistancePage::calculate_score(pair[1]));
    }
    assert_eq!(DistancePage::calculate_score(5_000_000), 0);
    assert_eq!(DistancePage::calculate_score(u64::MAX), 0);
    assert_eq!(DistancePage::calculate_score(4_999_999), 1);
}

#[test]
fn guess_adds_its_score_to_the_user() {
    let mut store = Store::with_rows(vec![row(4, 0), row(5, 3000)]).unwrap();
    let claims = Claims { id: 4, email: "a@b.c".to_string(), exp: 10 };
    assert_eq!(score_guess(&mut store, &claims, 111_195), Ok(4889));
    let rows = store.rows();
    assert_eq!(rows[0], LeaderBoardRow { id: 4, rank: 1, total_score: 4889, num_guesses: 1 });
    assert_eq!(rows[1].rank, 2);
    let stranger = Claims { id: 6, email: "x@y.z".to_string(), exp: 10 };
    assert_eq!(score_guess(&mut store, &stranger, 0), Err(AppError::UserDoesNotExist));
}

#[test]
fn ranks_stay_dense_after_many_updates() {
    let mut store = Store::with_rows((1..=8).map(|id| row(id, 0)).collect()).unwrap();
    let points = [40u32, 10, 40, 25, 0, 10, 5, 25];
    for (i, p) in points.iter().enumerate() {
        store.update_score(*p, i as i32 + 1).unwrap();
    }
    let rows = store.rows();
    let max_rank = rows.iter().map(|r| r.rank).max().unwrap();
    for rank in 1..=max_rank {
        assert!(rows.iter().any(|r| r.rank == rank));
    }
    for a in &rows {
        for b in &rows {
            if a.total_score == b.total_score {
                assert_eq!(a.rank, b.rank);
            }
            if a.total_score > b.total_score {
                assert!(a.rank < b.rank);
            }
        }
    }
    assert_eq!(max_rank, 5);
}
