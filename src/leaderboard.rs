//! The leaderboard page: the best users in rank order.

use vstd::prelude::*;

use crate::db::{is_top, top_limit, LeaderBoardRow, Store};

verus! {

/// How many users the leaderboard page shows.
pub const LEADERBOARD_SIZE: i32 = 100;

/// The rows shown on the leaderboard, best first.
#[derive(Clone, Debug)]
pub struct LeaderBoard {
    user_list: Vec<LeaderBoardRow>,
}

impl View for LeaderBoard {
    type V = Seq<LeaderBoardRow>;

    closed spec fn view(&self) -> Seq<LeaderBoardRow> {
        self.user_list@
    }
}

impl LeaderBoard {
    /// A leaderboard showing `user_list` as it is.
    pub fn new(user_list: Vec<LeaderBoardRow>) -> (r: LeaderBoard)
        ensures
            r@ == user_list@,
    {
        LeaderBoard { user_list }
    }

    /// The rows shown, best first.
    pub fn user_list(&self) -> (r: &Vec<LeaderBoardRow>)
        ensures
            r@ == self@,
    {
        &self.user_list
    }

    /// The leaderboard of the best `num_users` users of the table.
    pub fn populate_top_num_users(num_users: i32, database: &Store) -> (r: LeaderBoard)
        ensures
            is_top(database@, top_limit(num_users), r@),
    {
        LeaderBoard::new(database.get_top_num_users(num_users))
    }
}

} // verus!
