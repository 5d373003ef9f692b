//! Database settings, the MySQL connection state and the error texts that the
//! server logs.

use vstd::prelude::*;

verus! {

/// A user of the station as listed for the login screen.
pub struct User {
    pub id_user: i32,
    pub name: String,
}

/// Connection settings of the MySQL database.
pub struct MysqlInfo {
    pub ip: String,
    pub login: String,
    pub password: String,
    pub database: String,
    pub port: String,
}

/// The settings as plain text fields.
pub struct MysqlInfoView {
    pub ip: Seq<char>,
    pub login: Seq<char>,
    pub password: Seq<char>,
    pub database: Seq<char>,
    pub port: Seq<char>,
}

impl View for MysqlInfo {
    type V = MysqlInfoView;

    open spec fn view(&self) -> MysqlInfoView {
        MysqlInfoView {
            ip: self.ip@,
            login: self.login@,
            password: self.password@,
            database: self.database@,
            port: self.port@,
        }
    }
}

/// Settings with every field empty.
pub open spec fn empty_info() -> MysqlInfoView {
    MysqlInfoView {
        ip: Seq::empty(),
        login: Seq::empty(),
        password: Seq::empty(),
        database: Seq::empty(),
        port: Seq::empty(),
    }
}

/// The settings carry no value at all.
pub open spec fn info_is_empty(v: MysqlInfoView) -> bool {
    &&& v.ip.len() == 0
    &&& v.login.len() == 0
    &&& v.password.len() == 0
    &&& v.database.len() == 0
    &&& v.port.len() == 0
}

/// The connection URL `mysql://login:password@ip:port/database`.
pub open spec fn database_url_text(v: MysqlInfoView) -> Seq<char> {
    seq!['m', 'y', 's', 'q', 'l', ':', '/', '/'] + v.login + seq![':'] + v.password + seq!['@']
        + v.ip + seq![':'] + v.port + seq!['/'] + v.database
}

impl Clone for MysqlInfo {
    fn clone(&self) -> (r: Self)
        ensures
            r@ == self@,
    {
        MysqlInfo {
            ip: self.ip.clone(),
            login: self.login.clone(),
            password: self.password.clone(),
            database: self.database.clone(),
            port: self.port.clone(),
        }
    }
}

impl MysqlInfo {
    /// Settings with every field empty.
    pub fn new() -> (r: MysqlInfo)
        ensures
            r@ == empty_info(),
    {
        MysqlInfo {
            ip: String::new(),
            login: String::new(),
            password: String::new(),
            database: String::new(),
            port: String::new(),
        }
    }

    /// True exactly when every field is empty.
    pub fn is_empty(&self) -> (r: bool)
        ensures
            r == info_is_empty(self@),
    {
        self.ip.as_str().is_empty() && self.login.as_str().is_empty()
            && self.password.as_str().is_empty() && self.database.as_str().is_empty()
            && self.port.as_str().is_empty()
    }

    /// Field-by-field equality of two settings.
    pub fn same_as(&self, other: &MysqlInfo) -> (r: bool)
        ensures
            r == (self@ == other@),
    {
        let r = self.ip == other.ip && self.login == other.login && self.password == other.password
            && self.database == other.database && self.port == other.port;
        r
    }

    /// The URL that the MySQL pool connects to.
    pub fn database_url(&self) -> (url: String)
        ensures
            url@ == database_url_text(self@),
    {
        proof {
            reveal_strlit("mysql://");
            reveal_strlit(":");
            reveal_strlit("@");
            reveal_strlit("/");
        }
        let mut url = String::from_str("mysql://");
        url.append(self.login.as_str());
        url.append(":");
        url.append(self.password.as_str());
        url.append("@");
        url.append(self.ip.as_str());
        url.append(":");
        url.append(self.port.as_str());
        url.append("/");
        url.append(self.database.as_str());
        assert(url@ =~= database_url_text(self@));
        url
    }
}


/// A log line `SOURCE|| TIME error: DETAIL` ended by a newline.
pub open spec fn error_line_text(source: Seq<char>, now: Seq<char>, detail: Seq<char>) -> Seq<char> {
    source + seq!['|', '|', ' '] + now + seq![' ', 'e', 'r', 'r', 'o', 'r', ':', ' '] + detail + seq!['\n']
}

/// The name of the MySQL database in log lines.
pub open spec fn mysql_source() -> Seq<char> {
    seq!['M', 'Y', 'S', 'Q', 'L']
}

/// The name of the local SQLite store in log lines.
pub open spec fn sqlite_source() -> Seq<char> {
    seq!['S', 'Q', 'L', 'I', 'T', 'E']
}

/// Builds the log line `SOURCE|| TIME error: DETAIL` ended by a newline.
pub fn error_line(source: &str, now: &str, detail: &str) -> (line: String)
    ensures
        line@ == error_line_text(source@, now@, detail@),
{
    proof {
        reveal_strlit("|| ");
        reveal_strlit(" error: ");
        reveal_strlit("\n");
    }
    let mut line = String::from_str(source);
    line.append("|| ");
    line.append(now);
    line.append(" error: ");
    line.append(detail);
    line.append("\n");
    assert(line@ =~= error_line_text(source@, now@, detail@));
    line
}

/// The error of a database operation, carrying the line that goes to the log.
pub enum MyError {
    DatabaseError(String),
}

/// What the server answers a request that failed with a database error.
pub struct ErrorReply {
    /// HTTP status of the answer.
    pub status: u16,
    /// Where the answer redirects the browser.
    pub location: &'static str,
    /// The text appended to the database error log.
    pub log_entry: String,
}

/// The page that shows the database error log.
pub open spec fn error_page_path() -> Seq<char> {
    seq!['/', 's', 'e', 't', 't', 'i', 'n', 'g', 's', '/', 'd', 'b', 'e', 'r', 'r', 'o', 'r']
}

impl MyError {
    /// The text that the error carries.
    pub open spec fn message(&self) -> Seq<char> {
        match self {
            MyError::DatabaseError(m) => m@,
        }
    }

    /// The error of a failed operation on the database `source`, at time `now`.
    pub fn database(source: &str, now: &str, detail: &str) -> (e: MyError)
        ensures
            e.message() == error_line_text(source@, now@, detail@),
    {
        MyError::DatabaseError(error_line(source, now, detail))
    }

    /// The error of a failed operation on the MySQL database at time `now`.
    pub fn mysql(now: &str, detail: &str) -> (e: MyError)
        ensures
            e.message() == error_line_text(mysql_source(), now@, detail@),
    {
        proof {
            reveal_strlit("MYSQL");
            assert("MYSQL"@ =~= mysql_source());
        }
        MyError::database("MYSQL", now, detail)
    }

    /// The error of a failed operation on the local SQLite store at time `now`.
    pub fn sqlite(now: &str, detail: &str) -> (e: MyError)
        ensures
            e.message() == error_line_text(sqlite_source(), now@, detail@),
    {
        proof {
            reveal_strlit("SQLITE");
            assert("SQLITE"@ =~= sqlite_source());
        }
        MyError::database("SQLITE", now, detail)
    }

    /// Appends the error's text to the database error log.
    pub fn pushlog(&self, log: &mut String)
        ensures
            final(log)@ == old(log)@ + self.message(),
    {
        match self {
            MyError::DatabaseError(mess_err) => {
                log.append(mess_err.as_str());
            },
        }
    }

    /// The HTTP status that classifies the error: Bad Request.
    pub fn status_code(&self) -> (code: u16)
        ensures
            code == 400,
    {
        400
    }

    /// The answer to a request that failed with this error: a redirect
    /// (302 Found) to the error page, and the error's text for the log.
    pub fn error_response(&self) -> (reply: ErrorReply)
        ensures
            reply.status == 302,
            reply.location@ == error_page_path(),
            reply.log_entry@ == self.message(),
    {
        proof { reveal_strlit("/settings/dberror"); }
        match self {
            MyError::DatabaseError(mess_err) => ErrorReply {
                status: 302,
                location: "/settings/dberror",
                log_entry: mess_err.clone(),
            },
        }
    }
}

/// The state of the MySQL connection as reported to clients.
#[derive(PartialEq, Eq, Structural, Clone, Copy, Debug)]
pub enum TypesStatus {
    Connected,
    Disconnected,
    Connecting,
}

/// The answer to a connection status request.
pub struct DbStatus {
    pub status: TypesStatus,
}

/// What a connection attempt does next once the MySQL pool is up.
#[derive(PartialEq, Eq, Structural, Clone, Copy, Debug)]
pub enum ConnectStep {
    /// Write the settings to the local store, then end the attempt with
    /// `connect_succeeded`. Should the write fail, the attempt stays open:
    /// the state is left connecting, without a connection, and the error log
    /// is kept.
    SaveSettings,
    /// The attempt has ended: connected.
    Connected,
}

/// The MySQL connection state of the server. `mysql_connected` stands for the
/// presence of a connection pool, which the server keeps beside this value.
pub struct AzsDb {
    pub mysql_connected: bool,
    pub mysql_info_success: MysqlInfo,
    pub mysql_info_last: MysqlInfo,
    pub is_connecting: bool,
}

/// The status that a connection state reports.
pub open spec fn status_of(connected: bool, connecting: bool) -> TypesStatus {
    if !connected {
        if connecting {
            TypesStatus::Connecting
        } else {
            TypesStatus::Disconnected
        }
    } else {
        TypesStatus::Connected
    }
}

impl AzsDb {
    /// A connection state is never both connected and still connecting.
    pub open spec fn well_formed(&self) -> bool {
        !(self.mysql_connected && self.is_connecting)
    }

    /// No connection, no attempt under way, both remembered settings empty.
    pub fn new() -> (db: AzsDb)
        ensures
            !db.mysql_connected,
            !db.is_connecting,
            db.mysql_info_success@ == empty_info(),
            db.mysql_info_last@ == empty_info(),
            db.well_formed(),
    {
        AzsDb {
            mysql_connected: false,
            mysql_info_success: MysqlInfo::new(),
            mysql_info_last: MysqlInfo::new(),
            is_connecting: false,
        }
    }

    /// Drops the connection and ends any attempt.
    pub fn disconnect(&mut self)
        ensures
            !final(self).mysql_connected,
            !final(self).is_connecting,
            final(self).mysql_info_success@ == old(self).mysql_info_success@,
            final(self).mysql_info_last@ == old(self).mysql_info_last@,
            final(self).well_formed(),
    {
        self.is_connecting = false;
        self.mysql_connected = false;
    }

    /// Starts a connection attempt with `mysql_info`: the old connection is
    /// dropped, the settings are remembered as the last ones tried, and the
    /// URL to connect to is returned.
    pub fn begin_connect(&mut self, mysql_info: &MysqlInfo) -> (url: String)
        ensures
            url@ == database_url_text(mysql_info@),
            !final(self).mysql_connected,
            final(self).is_connecting,
            final(self).mysql_info_last@ == mysql_info@,
            final(self).mysql_info_success@ == old(self).mysql_info_success@,
            final(self).well_formed(),
    {
        let url = mysql_info.database_url();
        self.mysql_connected = false;
        self.is_connecting = true;
        self.mysql_info_last = mysql_info.clone();
        url
    }

    /// Whether settings that connected must be written to the local store:
    /// exactly when they differ from the last settings that connected.
    pub fn needs_saving(&self, mysql_info: &MysqlInfo) -> (r: bool)
        ensures
            r == (self.mysql_info_success@ != mysql_info@),
    {
        !self.mysql_info_success.same_as(mysql_info)
    }

    /// Ends an attempt that connected with `mysql_info`: the connection is up,
    /// the settings are remembered as the last ones that worked, and the
    /// database error log `log` is cleared.
    pub fn connect_succeeded(&mut self, mysql_info: &MysqlInfo, log: &mut String) -> (r: bool)
        ensures
            r,
            final(log)@ == Seq::<char>::empty(),
            final(self).mysql_connected,
            !final(self).is_connecting,
            final(self).mysql_info_success@ == mysql_info@,
            final(self).mysql_info_last@ == old(self).mysql_info_last@,
            final(self).well_formed(),
    {
        *log = String::new();
        self.mysql_info_success = mysql_info.clone();
        self.mysql_connected = true;
        self.is_connecting = false;
        self.mysql_connected
    }

    /// The step after the pool for `mysql_info` came up: settings that differ
    /// from the last ones that connected must first be saved, and nothing
    /// changes yet; settings already saved end the attempt connected, with the
    /// error log cleared.
    pub fn on_pool_ready(&mut self, mysql_info: &MysqlInfo, log: &mut String) -> (step: ConnectStep)
        ensures
            old(self).mysql_info_success@ != mysql_info@ ==> {
                &&& step == ConnectStep::SaveSettings
                &&& final(self).mysql_connected == old(self).mysql_connected
                &&& final(self).is_connecting == old(self).is_connecting
                &&& final(self).mysql_info_success@ == old(self).mysql_info_success@
                &&& final(self).mysql_info_last@ == old(self).mysql_info_last@
                &&& final(log)@ == old(log)@
            },
            old(self).mysql_info_success@ == mysql_info@ ==> {
                &&& step == ConnectStep::Connected
                &&& final(self).mysql_connected
                &&& !final(self).is_connecting
                &&& final(self).mysql_info_success@ == mysql_info@
                &&& final(self).mysql_info_last@ == old(self).mysql_info_last@
                &&& final(log)@ == Seq::<char>::empty()
            },
            old(self).well_formed() ==> final(self).well_formed(),
    {
        if self.needs_saving(mysql_info) {
            ConnectStep::SaveSettings
        } else {
            self.connect_succeeded(mysql_info, log);
            ConnectStep::Connected
        }
    }

    /// Ends an attempt that failed at time `now` with the driver's message
    /// `detail`: the state is disconnected and the MySQL error is returned.
    pub fn connect_failed(&mut self, now: &str, detail: &str) -> (e: MyError)
        ensures
            e.message() == error_line_text(mysql_source(), now@, detail@),
            !final(self).mysql_connected,
            !final(self).is_connecting,
            final(self).mysql_info_success@ == old(self).mysql_info_success@,
            final(self).mysql_info_last@ == old(self).mysql_info_last@,
            final(self).well_formed(),
    {
        self.disconnect();
        MyError::mysql(now, detail)
    }

    /// The status of the connection.
    #[allow(non_snake_case)]
    pub fn getDbStatus(&self) -> (s: DbStatus)
        ensures
            s.status == status_of(self.mysql_connected, self.is_connecting),
    {
        if !self.mysql_connected {
            if self.is_connecting {
                DbStatus { status: TypesStatus::Connecting }
            } else {
                DbStatus { status: TypesStatus::Disconnected }
            }
        } else {
            DbStatus { status: TypesStatus::Connected }
        }
    }
}


/// Texts joined with a separator between each two.
pub open spec fn join_with(items: Seq<Seq<char>>, sep: Seq<char>) -> Seq<char>
    decreases items.len(),
{
    if items.len() == 0 {
        Seq::empty()
    } else if items.len() == 1 {
        items[0]
    } else {
        join_with(items.drop_last(), sep) + sep + items.last()
    }
}

/// The columns of the local settings table named in the statements that
/// write it, in the order in which the statements take their values.
pub open spec fn settings_columns() -> Seq<Seq<char>> {
    seq!["ip"@, "login"@, "password"@, "database"@, "port"@]
}

/// `INSERT INTO table (c1, c2, ...) VALUES (?, ?, ...)`: the i-th value given
/// goes to the i-th column named.
pub open spec fn insert_statement(table: Seq<char>, columns: Seq<Seq<char>>) -> Seq<char> {
    "INSERT INTO "@ + table + " ("@ + join_with(columns, ", "@) + ") VALUES ("@
        + join_with(Seq::new(columns.len(), |i: int| "?"@), ", "@) + ")"@
}

/// `UPDATE table SET c1=?, c2=?, ... WHERE condition`: the i-th value given
/// goes to the i-th column named.
pub open spec fn update_statement(table: Seq<char>, columns: Seq<Seq<char>>, condition: Seq<char>) -> Seq<char> {
    "UPDATE "@ + table + " SET "@ + join_with(columns.map_values(|c: Seq<char>| c + "=?"@), ", "@)
        + " WHERE "@ + condition
}

/// The row that a statement naming `columns` writes when it is given `values`
/// in order: each column holds the value at its position.
pub open spec fn written_row(columns: Seq<Seq<char>>, values: Seq<Seq<char>>) -> Map<Seq<char>, Seq<char>>
    decreases columns.len(),
{
    if columns.len() == 0 || values.len() == 0 {
        Map::empty()
    } else {
        written_row(columns.drop_last(), values.drop_last()).insert(columns.last(), values.last())
    }
}

/// Settings read back from a row of the local table, each field from the
/// column of its name.
pub open spec fn settings_from_row(row: Map<Seq<char>, Seq<char>>) -> MysqlInfoView {
    MysqlInfoView {
        ip: row["ip"@],
        login: row["login"@],
        password: row["password"@],
        database: row["database"@],
        port: row["port"@],
    }
}

/// The statement that stores settings in an empty local table.
pub open spec fn insert_settings_sql() -> Seq<char> {
    "INSERT INTO mysql_db (ip, login, password, database, port) VALUES (?, ?, ?, ?, ?)"@
}

/// The statement that overwrites the first stored settings row.
pub open spec fn update_settings_sql() -> Seq<char> {
    "UPDATE mysql_db SET ip=?, login=?, password=?, database=?, port=? WHERE id = (SELECT id FROM mysql_db LIMIT 1)"@
}

/// The statement that writes settings to the local table holding
/// `row_count` rows: an insert into an empty table, else an update of its
/// first row. Both take the fields in the order ip, login, password,
/// database, port.
pub fn settings_write_query(row_count: i64) -> (sql: &'static str)
    ensures
        row_count == 0 ==> sql@ == insert_settings_sql(),
        row_count != 0 ==> sql@ == update_settings_sql(),
        row_count == 0 ==> sql@ == insert_statement("mysql_db"@, settings_columns()),
        row_count != 0 ==> sql@ == update_statement(
            "mysql_db"@,
            settings_columns(),
            "id = (SELECT id FROM mysql_db LIMIT 1)"@,
        ),
{
    proof {
        crate::laws::law_settings_write_round_trip(empty_info());
    }
    if row_count == 0 {
        "INSERT INTO mysql_db (ip, login, password, database, port) VALUES (?, ?, ?, ?, ?)"
    } else {
        "UPDATE mysql_db SET ip=?, login=?, password=?, database=?, port=? WHERE id = (SELECT id FROM mysql_db LIMIT 1)"
    }
}

/// The stored settings: the first row read from the local table, or empty
/// settings when the table holds none.
pub fn first_mysql_info(rows: &Vec<MysqlInfo>) -> (info: MysqlInfo)
    ensures
        rows@.len() == 0 ==> info@ == empty_info(),
        rows@.len() != 0 ==> info@ == rows@[0]@,
{
    if rows.len() != 0 {
        rows[0].clone()
    } else {
        MysqlInfo::new()
    }
}

} // verus!
