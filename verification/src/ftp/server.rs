//! FTP server accounts and the login decision.

use vstd::prelude::*;
use vstd::string::*;

verus! {

/// A static username -> password table. A later entry for a name replaces
/// an earlier one, as in a map.
#[derive(Debug)]
pub struct Accounts {
    entries: Vec<(String, String)>,
}

/// The table that a list of (name, password) insertions builds.
pub open spec fn entries_map(e: Seq<(String, String)>) -> Map<Seq<char>, Seq<char>>
    decreases e.len(),
{
    if e.len() == 0 {
        Map::empty()
    } else {
        entries_map(e.drop_last()).insert(e.last().0@, e.last().1@)
    }
}

impl View for Accounts {
    type V = Map<Seq<char>, Seq<char>>;

    closed spec fn view(&self) -> Map<Seq<char>, Seq<char>> {
        entries_map(self.entries@)
    }
}

/// Entries after position `i` that do not name `k` leave its lookup as it
/// was after the first `i` entries.
proof fn lemma_entries_map_prefix(e: Seq<(String, String)>, i: int, k: Seq<char>)
    requires
        0 <= i <= e.len(),
        forall|j: int| i <= j < e.len() ==> #[trigger] e[j].0@ != k,
    ensures
        entries_map(e).dom().contains(k) == entries_map(e.take(i)).dom().contains(k),
        entries_map(e).dom().contains(k) ==> entries_map(e)[k] == entries_map(e.take(i))[k],
    decreases e.len() - i,
{
    if i < e.len() {
        let init = e.drop_last();
        assert(init.take(i) =~= e.take(i));
        assert forall|j: int| i <= j < init.len() implies #[trigger] init[j].0@ != k by {
            assert(init[j] == e[j]);
        }
        lemma_entries_map_prefix(init, i, k);
    } else {
        assert(e.take(i) =~= e);
    }
}

impl Accounts {
    /// An empty table.
    pub fn new() -> (a: Accounts)
        ensures
            a@ == Map::<Seq<char>, Seq<char>>::empty(),
    {
        Accounts { entries: Vec::new() }
    }

    /// Set the password of `user`.
    pub fn insert(&mut self, user: String, pass: String)
        ensures
            final(self)@ == old(self)@.insert(user@, pass@),
    {
        let ghost before = self.entries@;
        self.entries.push((user, pass));
        assert(self.entries@.drop_last() =~= before);
    }

    /// The password of `user`, if it has an account.
    pub fn get(&self, user: &str) -> (r: Option<&String>)
        ensures
            match r {
                Some(p) => self@.dom().contains(user@) && self@[user@] == p@,
                None => !self@.dom().contains(user@),
            },
    {
        let ghost e = self.entries@;
        let name = String::from_str(user);
        let mut i = self.entries.len();
        while i > 0
            invariant
                i <= e.len(),
                e == self.entries@,
                name@ == user@,
                forall|j: int| i <= j < e.len() ==> #[trigger] e[j].0@ != user@,
            decreases i,
        {
            if self.entries[i - 1].0 == name {
                proof {
                    lemma_entries_map_prefix(e, i as int, user@);
                    assert(e.take(i as int).drop_last() =~= e.take(i - 1));
                }
                return Some(&self.entries[i - 1].1);
            }
            i = i - 1;
        }
        proof {
            lemma_entries_map_prefix(e, 0, user@);
            assert(e.take(0) =~= Seq::<(String, String)>::empty());
        }
        None
    }
}

/// Authentication mode for the FTP server.
#[derive(Debug)]
pub enum FtpAuth {
    /// Anyone can log in (any username/password, including none).
    Anonymous,
    /// Static username -> password table.
    Users(Accounts),
}

/// Outcome of a login attempt.
#[derive(Debug, Clone, Copy, PartialEq, Eq, Structural)]
pub enum Login {
    Accepted,
    /// No account has this name.
    BadUser,
    /// The password is missing or wrong.
    BadPassword,
}

/// The login decision against a table: unknown names are refused as bad
/// users, known names need exactly their password.
pub open spec fn login_spec(m: Map<Seq<char>, Seq<char>>, user: Seq<char>, password: Option<Seq<char>>) -> Login {
    if !m.dom().contains(user) {
        Login::BadUser
    } else {
        match password {
            Some(p) => if p == m[user] {
                Login::Accepted
            } else {
                Login::BadPassword
            },
            None => Login::BadPassword,
        }
    }
}

/// The login decision of an authentication mode.
pub open spec fn auth_login_spec(auth: FtpAuth, user: Seq<char>, password: Option<Seq<char>>) -> Login {
    match auth {
        FtpAuth::Anonymous => Login::Accepted,
        FtpAuth::Users(a) => login_spec(a@, user, password),
    }
}

/// Decide a login against a table of accounts.
pub fn check_login(users: &Accounts, user: &str, password: Option<&str>) -> (r: Login)
    ensures
        r == login_spec(users@, user@, match password {
            Some(p) => Some(p@),
            None => None,
        }),
{
    match users.get(user) {
        None => Login::BadUser,
        Some(expected) => match password {
            Some(p) => {
                let given = String::from_str(p);
                if given == *expected {
                    Login::Accepted
                } else {
                    Login::BadPassword
                }
            },
            None => Login::BadPassword,
        },
    }
}

impl FtpAuth {
    /// Convenience constructor for a single account.
    pub fn single_user(user: &str, pass: &str) -> (r: Self)
        ensures
            r matches FtpAuth::Users(a) && a@ == Map::<Seq<char>, Seq<char>>::empty().insert(
                user@,
                pass@,
            ),
    {
        let mut a = Accounts::new();
        a.insert(String::from_str(user), String::from_str(pass));
        FtpAuth::Users(a)
    }

    /// Decide a login under this mode.
    pub fn check(&self, user: &str, password: Option<&str>) -> (r: Login)
        ensures
            r == auth_login_spec(*self, user@, match password {
                Some(p) => Some(p@),
                None => None,
            }),
    {
        match self {
            FtpAuth::Anonymous => Login::Accepted,
            FtpAuth::Users(a) => check_login(a, user, password),
        }
    }
}

/// Law: a single-user server accepts exactly its user with exactly its
/// password; any other name is a bad user, any other password (or none) a
/// bad password.
pub proof fn lemma_single_user_login(
    user: Seq<char>,
    pass: Seq<char>,
    who: Seq<char>,
    password: Option<Seq<char>>,
)
    ensures
        login_spec(Map::empty().insert(user, pass), who, password) == (if who != user {
            Login::BadUser
        } else if password == Some(pass) {
            Login::Accepted
        } else {
            Login::BadPassword
        }),
{
}

/// Law: the anonymous mode accepts every login.
pub proof fn lemma_anonymous_accepts_all(who: Seq<char>, password: Option<Seq<char>>)
    ensures
        auth_login_spec(FtpAuth::Anonymous, who, password) == Login::Accepted,
{
}

} // verus!
