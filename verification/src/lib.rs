pub mod announcement_times;
pub mod boueigun;
pub mod civil;
pub mod error;
pub mod features;
pub mod feeds;
pub mod jashin;
pub mod keema;
pub mod konmeiko;
pub mod matching;
pub mod monsters;
pub mod monthly_contents;
pub mod num;
pub mod panigulm;
pub mod periodic_contents;
pub mod rate_limit;
pub mod response;
pub mod resistances;
pub mod rotation;
pub mod seishugosha;
pub mod strutil;
pub mod tmp_file;
pub mod weekly_activity;
pub mod weekly_contents;
