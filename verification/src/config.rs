//! What is configured once, before the control loop starts.

use vstd::prelude::*;

verus! {

/// The settings of the supervisor.
pub struct Config {
    /// The user name of the console login.
    pub main_user: String,
    /// The password of the console login.
    pub main_pass: String,
    /// The user name of the login that starts the supervised process.
    pub start_user: String,
    /// The password of the login that starts the supervised process.
    pub start_pass: String,
    /// The executable that is supervised.
    pub run_path: String,
    /// The address to listen on.
    pub host_ip: String,
    /// How many workers accept connections.
    pub receive_threads: u32,
    /// How many lines of output are kept for display.
    pub max_lines_shown: usize,
}

/// What a pair of user name and password is good for.
#[derive(Clone, Copy, Debug, PartialEq, Eq, Structural)]
pub enum Access {
    /// The console login.
    Console,
    /// The login that starts the supervised process.
    Start,
    /// Neither.
    Denied,
}

/// What `username` and `password` are good for under the given settings.
/// The console login is tried first.
pub open spec fn access_of(
    main_user: Seq<char>,
    main_pass: Seq<char>,
    start_user: Seq<char>,
    start_pass: Seq<char>,
    username: Seq<char>,
    password: Seq<char>,
) -> Access {
    if username == main_user && password == main_pass {
        Access::Console
    } else if username == start_user && password == start_pass {
        Access::Start
    } else {
        Access::Denied
    }
}

impl Config {
    /// What `username` and `password` are good for.
    pub open spec fn access(&self, username: Seq<char>, password: Seq<char>) -> Access {
        access_of(
            self.main_user@,
            self.main_pass@,
            self.start_user@,
            self.start_pass@,
            username,
            password,
        )
    }

    /// Checks a pair of user name and password.
    pub fn check_login(&self, username: &String, password: &String) -> (r: Access)
        ensures
            r == self.access(username@, password@),
    {
        if *username == self.main_user && *password == self.main_pass {
            Access::Console
        } else if *username == self.start_user && *password == self.start_pass {
            Access::Start
        } else {
            Access::Denied
        }
    }
}

} // verus!
