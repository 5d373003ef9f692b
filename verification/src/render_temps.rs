//! The values that the HTML pages are rendered from.

use vstd::prelude::*;

use crate::models::{AzsDb, MysqlInfo, User};

verus! {

/// The login page: the users to choose from, and whether a shift is open.
pub struct AuthTemplate {
    pub smena: bool,
    pub users: Vec<User>,
}

/// The database error page.
pub struct ErrorDb {
    pub error: String,
}

/// The database settings page: the settings last tried, the settings last
/// connected with, and the database error log.
pub struct MysqlInfowithErrorDb {
    pub mysql_info_last: MysqlInfo,
    pub mysql_info_success: MysqlInfo,
    pub error_db: String,
}

impl AuthTemplate {
    /// The login page listing `users`, with a shift open.
    pub fn for_login(users: Vec<User>) -> (t: AuthTemplate)
        ensures
            t.smena,
            t.users@ == users@,
    {
        AuthTemplate { smena: true, users }
    }
}

impl ErrorDb {
    /// The error page showing the database error log.
    pub fn from_log(log: &String) -> (page: ErrorDb)
        ensures
            page.error@ == log@,
    {
        ErrorDb { error: log.clone() }
    }
}

impl MysqlInfowithErrorDb {
    /// The settings page of the connection state `db` with the error log `log`.
    pub fn from_state(db: &AzsDb, log: &String) -> (page: MysqlInfowithErrorDb)
        ensures
            page.mysql_info_last@ == db.mysql_info_last@,
            page.mysql_info_success@ == db.mysql_info_success@,
            page.error_db@ == log@,
    {
        MysqlInfowithErrorDb {
            mysql_info_last: db.mysql_info_last.clone(),
            mysql_info_success: db.mysql_info_success.clone(),
            error_db: log.clone(),
        }
    }
}

} // verus!
