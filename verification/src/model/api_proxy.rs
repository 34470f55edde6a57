use vstd::prelude::*;

use crate::text_util::{opt_string_view, str_equal};

verus! {

/// The server metadata echoed to downstream players.
#[derive(Debug, Clone, PartialEq)]
pub struct ApiProxyServerInfo {
    pub protocol: String,
    pub ip: String,
    pub http_port: u16,
    pub https_port: u16,
    pub rtmp_port: u16,
    pub timezone: String,
    pub message: String,
}

/// One downstream account.
#[derive(Debug, Clone, PartialEq)]
pub struct UserCredentials {
    pub username: String,
    pub password: String,
    pub token: Option<String>,
}

pub open spec fn cred_view_eq(a: UserCredentials, b: UserCredentials) -> bool {
    &&& a.username@ == b.username@
    &&& a.password@ == b.password@
    &&& opt_string_view(a.token) == opt_string_view(b.token)
}

impl UserCredentials {
    /// An owned copy with the same content.
    pub fn duplicate(&self) -> (r: UserCredentials)
        ensures
            cred_view_eq(r, *self),
    {
        UserCredentials {
            username: self.username.clone(),
            password: self.password.clone(),
            token: match &self.token {
                Some(t) => Some(t.clone()),
                None => None,
            },
        }
    }
}

/// The downstream users mapped onto one target.
#[derive(Debug, Clone, PartialEq)]
pub struct TargetUser {
    pub target: String,
    pub credentials: Vec<UserCredentials>,
}

/// The downstream credential namespace: server metadata and the users
/// of every target.
#[derive(Debug, Clone, PartialEq)]
pub struct ApiProxyConfig {
    pub server: ApiProxyServerInfo,
    pub user: Vec<TargetUser>,
}

/// The first credential with the given username and password.
pub open spec fn find_cred(creds: Seq<UserCredentials>, u: Seq<char>, p: Seq<char>) -> Option<
    UserCredentials,
>
    decreases creds.len(),
{
    if creds.len() == 0 {
        Option::None
    } else if creds[0].username@ == u && creds[0].password@ == p {
        Option::Some(creds[0])
    } else {
        find_cred(creds.subrange(1, creds.len() as int), u, p)
    }
}

/// The first credential carrying the given token.
pub open spec fn find_cred_by_token(creds: Seq<UserCredentials>, t: Seq<char>) -> Option<
    UserCredentials,
>
    decreases creds.len(),
{
    if creds.len() == 0 {
        Option::None
    } else if opt_string_view(creds[0].token) == Option::Some(t) {
        Option::Some(creds[0])
    } else {
        find_cred_by_token(creds.subrange(1, creds.len() as int), t)
    }
}

/// The first user over all targets with the given username and
/// password, paired with its target's name.
pub open spec fn find_user(users: Seq<TargetUser>, u: Seq<char>, p: Seq<char>) -> Option<
    (UserCredentials, Seq<char>),
>
    decreases users.len(),
{
    if users.len() == 0 {
        Option::None
    } else {
        match find_cred(users[0].credentials@, u, p) {
            Option::Some(c) => Option::Some((c, users[0].target@)),
            Option::None => find_user(users.subrange(1, users.len() as int), u, p),
        }
    }
}

pub open spec fn find_user_by_token(users: Seq<TargetUser>, t: Seq<char>) -> Option<
    (UserCredentials, Seq<char>),
>
    decreases users.len(),
{
    if users.len() == 0 {
        Option::None
    } else {
        match find_cred_by_token(users[0].credentials@, t) {
            Option::Some(c) => Option::Some((c, users[0].target@)),
            Option::None => find_user_by_token(users.subrange(1, users.len() as int), t),
        }
    }
}

fn search_creds(creds: &Vec<UserCredentials>, username: &str, password: &str) -> (r: Option<
    UserCredentials,
>)
    ensures
        match r {
            Option::Some(c) => find_cred(creds@, username@, password@) is Some && cred_view_eq(
                c,
                find_cred(creds@, username@, password@)->Some_0,
            ),
            Option::None => find_cred(creds@, username@, password@) is None,
        },
{
    let n = creds.len();
    let mut i: usize = 0;
    proof {
        assert(creds@.subrange(0, n as int) =~= creds@);
    }
    while i < n
        invariant
            i <= n,
            n == creds@.len(),
            find_cred(creds@, username@, password@) == find_cred(
                creds@.subrange(i as int, n as int),
                username@,
                password@,
            ),
        decreases n - i,
    {
        proof {
            let rest = creds@.subrange(i as int, n as int);
            assert(rest.subrange(1, rest.len() as int) =~= creds@.subrange(i + 1, n as int));
        }
        if str_equal(creds[i].username.as_str(), username) && str_equal(
            creds[i].password.as_str(),
            password,
        ) {
            let c = creds[i].duplicate();
            proof {
                assert(find_cred(creds@, username@, password@) == Option::Some(creds@[i as int]));
            }
            return Some(c);
        }
        i += 1;
    }
    None
}

fn search_creds_by_token(creds: &Vec<UserCredentials>, token: &str) -> (r: Option<UserCredentials>)
    ensures
        match r {
            Option::Some(c) => find_cred_by_token(creds@, token@) is Some && cred_view_eq(
                c,
                find_cred_by_token(creds@, token@)->Some_0,
            ),
            Option::None => find_cred_by_token(creds@, token@) is None,
        },
{
    let n = creds.len();
    let mut i: usize = 0;
    proof {
        assert(creds@.subrange(0, n as int) =~= creds@);
    }
    while i < n
        invariant
            i <= n,
            n == creds@.len(),
            find_cred_by_token(creds@, token@) == find_cred_by_token(
                creds@.subrange(i as int, n as int),
                token@,
            ),
        decreases n - i,
    {
        proof {
            let rest = creds@.subrange(i as int, n as int);
            assert(rest.subrange(1, rest.len() as int) =~= creds@.subrange(i + 1, n as int));
        }
        let has_token = match &creds[i].token {
            Some(t) => str_equal(t.as_str(), token),
            None => false,
        };
        if has_token {
            let c = creds[i].duplicate();
            proof {
                assert(find_cred_by_token(creds@, token@) == Option::Some(creds@[i as int]));
            }
            return Some(c);
        }
        i += 1;
    }
    None
}

impl ApiProxyConfig {
    /// Resolves a downstream username and password to the matching
    /// credentials and the name of the target they are mapped onto.
    pub fn get_target_name(&self, username: &str, password: &str) -> (r: Option<
        (UserCredentials, String),
    >)
        ensures
            match r {
                Option::Some(p) => {
                    &&& find_user(self.user@, username@, password@) is Some
                    &&& p.1@ == find_user(self.user@, username@, password@)->Some_0.1
                    &&& cred_view_eq(p.0, find_user(self.user@, username@, password@)->Some_0.0)
                },
                Option::None => find_user(self.user@, username@, password@) is None,
            },
    {
        let n = self.user.len();
        let mut i: usize = 0;
        proof {
            assert(self.user@.subrange(0, n as int) =~= self.user@);
        }
        while i < n
            invariant
                i <= n,
                n == self.user@.len(),
                find_user(self.user@, username@, password@) == find_user(
                    self.user@.subrange(i as int, n as int),
                    username@,
                    password@,
                ),
            decreases n - i,
        {
            proof {
                let rest = self.user@.subrange(i as int, n as int);
                assert(rest.subrange(1, rest.len() as int) =~= self.user@.subrange(
                    i + 1,
                    n as int,
                ));
            }
            match search_creds(&self.user[i].credentials, username, password) {
                Some(c) => {
                    proof {
                        let rest = self.user@.subrange(i as int, n as int);
                        assert(rest[0] == self.user@[i as int]);
                        let c0 = find_cred(
                            self.user@[i as int].credentials@,
                            username@,
                            password@,
                        )->Some_0;
                        assert(find_user(rest, username@, password@) == Option::Some(
                            (c0, self.user@[i as int].target@),
                        ));
                    }
                    return Some((c, self.user[i].target.clone()));
                },
                None => {},
            }
            i += 1;
        }
        None
    }

    /// Resolves a bearer token the same way.
    pub fn get_target_name_by_token(&self, token: &str) -> (r: Option<(UserCredentials, String)>)
        ensures
            match r {
                Option::Some(p) => {
                    &&& find_user_by_token(self.user@, token@) is Some
                    &&& p.1@ == find_user_by_token(self.user@, token@)->Some_0.1
                    &&& cred_view_eq(p.0, find_user_by_token(self.user@, token@)->Some_0.0)
                },
                Option::None => find_user_by_token(self.user@, token@) is None,
            },
    {
        let n = self.user.len();
        let mut i: usize = 0;
        proof {
            assert(self.user@.subrange(0, n as int) =~= self.user@);
        }
        while i < n
            invariant
                i <= n,
                n == self.user@.len(),
                find_user_by_token(self.user@, token@) == find_user_by_token(
                    self.user@.subrange(i as int, n as int),
                    token@,
                ),
            decreases n - i,
        {
            proof {
                let rest = self.user@.subrange(i as int, n as int);
                assert(rest.subrange(1, rest.len() as int) =~= self.user@.subrange(
                    i + 1,
                    n as int,
                ));
            }
            match search_creds_by_token(&self.user[i].credentials, token) {
                Some(c) => {
                    proof {
                        let rest = self.user@.subrange(i as int, n as int);
                        assert(rest[0] == self.user@[i as int]);
                        let c0 = find_cred_by_token(
                            self.user@[i as int].credentials@,
                            token@,
                        )->Some_0;
                        assert(find_user_by_token(rest, token@) == Option::Some(
                            (c0, self.user@[i as int].target@),
                        ));
                    }
                    return Some((c, self.user[i].target.clone()));
                },
                None => {},
            }
            i += 1;
        }
        None
    }
}

} // verus!
