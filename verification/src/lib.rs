//! Backend core of an online testing platform: users, test papers with
//! their questions and options, schedules, test sittings and answers, all
//! kept in an in-memory relational store, behind a credential cache that
//! amortises slow password verification and an authorization layer that
//! gates every operation before it touches anything.

pub mod auth;
pub mod basic;
pub mod cache;
pub mod errors;
pub mod field_update;
pub mod gql_schema;
pub mod question_answer;
pub mod question_option;
pub mod store;
pub mod strings;
pub mod table;
pub mod test_attempt;
pub mod test_paper;
pub mod test_question;
pub mod test_room;
pub mod test_schedule;
pub mod test_subscription;
pub mod user;
