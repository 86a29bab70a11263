//! Settings of a database connection: their names, their defaults and
//! the address they make.

use vstd::prelude::*;
use crate::text::{nat_text, push_nat};

verus! {

/// Port of a database that does not say otherwise.
pub const DEFAULT_PORT: u16 = 3306;

/// The settings of a database connection.
#[derive(Clone, Debug, PartialEq, Eq)]
pub struct DbConfig {
    pub host: String,
    pub port: u16,
    pub user: String,
    pub password: String,
    pub database: String,
}

/// The value of a decimal digit, if the character is one.
pub open spec fn digit_value(c: char) -> Option<nat> {
    if '0' <= c <= '9' {
        Some((c as u32 - '0' as u32) as nat)
    } else {
        None
    }
}

/// The number that a string of decimal digits stands for; nothing if the
/// string is empty or holds anything but digits.
pub open spec fn digits_value(s: Seq<char>) -> Option<nat>
    decreases s.len(),
{
    if s.len() == 0 {
        None
    } else {
        match digit_value(s.last()) {
            Some(d) => if s.len() == 1 {
                Some(d)
            } else {
                match digits_value(s.drop_last()) {
                    Some(v) => Some(v * 10 + d),
                    None => None,
                }
            },
            None => None,
        }
    }
}

/// The port that a string stands for: decimal digits, after a plus sign
/// or without, that make a number of at most 65535.
pub open spec fn port_of(s: Seq<char>) -> Option<u16> {
    let digits = if s.len() > 0 && s[0] == '+' {
        s.skip(1)
    } else {
        s
    };
    match digits_value(digits) {
        Some(v) => if v <= u16::MAX {
            Some(v as u16)
        } else {
            None
        },
        None => None,
    }
}

/// The port of a connection: what its setting stands for, if the setting
/// is there and stands for a port, and the default otherwise.
pub open spec fn port_or_default(setting: Option<Seq<char>>) -> u16 {
    match setting {
        Some(s) => match port_of(s) {
            Some(p) => p,
            None => DEFAULT_PORT,
        },
        None => DEFAULT_PORT,
    }
}

/// A setting, or its default.
pub open spec fn or_default(setting: Option<Seq<char>>, default: Seq<char>) -> Seq<char> {
    match setting {
        Some(s) => s,
        None => default,
    }
}

/// The name of a setting of the connection with the given prefix.
pub open spec fn setting_text(prefix: Seq<char>, setting: Seq<char>) -> Seq<char> {
    prefix + "_DB_"@ + setting
}

/// The address of a connection.
pub open spec fn url_text(
    user: Seq<char>,
    password: Seq<char>,
    host: Seq<char>,
    port: nat,
    database: Seq<char>,
) -> Seq<char> {
    "mysql://"@ + user + ":"@ + password + "@"@ + host + ":"@ + nat_text(port) + "/"@ + database
}

/// What a view of an optional string is.
pub open spec fn text_of(setting: Option<String>) -> Option<Seq<char>> {
    match setting {
        Some(s) => Some(s@),
        None => None,
    }
}

/// One more digit keeps a number of digits a number, ten times as large
/// and the digit more.
pub proof fn lemma_digits_push(s: Seq<char>, c: char)
    ensures
        digits_value(s.push(c)) == (match digit_value(c) {
            Some(d) => if s.len() == 0 {
                Some(d)
            } else {
                match digits_value(s) {
                    Some(v) => Some(v * 10 + d),
                    None => None,
                }
            },
            None => None,
        }),
{
    assert(s.push(c).drop_last() =~= s);
}

/// Reads a port.
pub fn parse_port(s: &str) -> (r: Option<u16>)
    ensures
        r == port_of(s@),
{
    let mut value: u32 = 0;
    let mut any: bool = false;
    let mut signed: bool = false;
    let mut beyond: bool = false;
    let ghost mut digits: Seq<char> = Seq::empty();
    for c in it: s.chars()
        invariant
            it.seq() == s@,
            signed ==> it.index() >= 1 && s@[0] == '+',
            !signed ==> it.index() == 0 || s@[0] != '+',
            digits == (if signed {
                s@.take(it.index() as int).skip(1)
            } else {
                s@.take(it.index() as int)
            }),
            any == (digits.len() > 0),
            any ==> (digits_value(digits) matches Some(v) && (if beyond {
                v > u16::MAX
            } else {
                v == value
            })),
            !beyond ==> value <= u16::MAX,
            !any ==> value == 0 && !beyond,
    {
        let ghost k = it.index() as int;
        proof {
            assert(s@.take(k + 1) =~= s@.take(k).push(c));
        }
        if c == '+' && !signed && !any {
            // no sign and no digit so far: the sign stands first
            proof {
                assert(k == 0) by {
                    assert(digits.len() == s@.take(k).len());
                }
                digits = Seq::empty();
                assert(s@.take(1).skip(1) =~= Seq::<char>::empty());
            }
            signed = true;
        } else if '0' <= c && c <= '9' {
            proof {
                lemma_digits_push(digits, c);
                if signed {
                    assert(s@.take(k + 1).skip(1) =~= s@.take(k).skip(1).push(c));
                }
            }
            let d: u32 = c as u32 - '0' as u32;
            if !beyond {
                value = value * 10 + d;
                if value > 65535 {
                    beyond = true;
                }
            }
            proof {
                digits = digits.push(c);
            }
            any = true;
        } else {
            proof {
                // anything else ends the reading: the string stands for no port
                lemma_rest_is_no_number(c, if signed {
                    s@.skip(1)
                } else {
                    s@
                }, digits.len() as int);
            }
            return None;
        }
    }
    proof {
        assert(s@.take(s@.len() as int) =~= s@);
    }
    if !any || beyond {
        None
    } else {
        Some(value as u16)
    }
}

/// A string with a character that is no digit stands for no number.
pub proof fn lemma_rest_is_no_number(c: char, all: Seq<char>, at: int)
    requires
        0 <= at < all.len(),
        all[at] == c,
        digit_value(c) is None,
    ensures
        digits_value(all) is None,
    decreases all.len(),
{
    if all.len() - 1 == at {
    } else {
        lemma_rest_is_no_number(c, all.drop_last(), at);
    }
}

/// The name of a setting of the connection with the given prefix.
pub fn setting_name(prefix: &str, setting: &str) -> (r: String)
    ensures
        r@ == setting_text(prefix@, setting@),
{
    let mut out: String = String::from_str(prefix);
    out.append("_DB_");
    out.append(setting);
    out
}

impl DbConfig {
    /// The settings of a connection, each as found or its default: the
    /// local host, port 3306, the user root, no password, the database
    /// db1.
    pub fn from_settings(
        host: Option<String>,
        port: Option<String>,
        user: Option<String>,
        password: Option<String>,
        database: Option<String>,
    ) -> (r: Self)
        ensures
            r.host@ == or_default(text_of(host), "127.0.0.1"@),
            r.port == port_or_default(text_of(port)),
            r.user@ == or_default(text_of(user), "root"@),
            r.password@ == or_default(text_of(password), ""@),
            r.database@ == or_default(text_of(database), "db1"@),
    {
        let port: u16 = match port {
            Some(s) => match parse_port(s.as_str()) {
                Some(p) => p,
                None => DEFAULT_PORT,
            },
            None => DEFAULT_PORT,
        };
        DbConfig {
            host: match host {
                Some(s) => s,
                None => String::from_str("127.0.0.1"),
            },
            port,
            user: match user {
                Some(s) => s,
                None => String::from_str("root"),
            },
            password: match password {
                Some(s) => s,
                None => String::from_str(""),
            },
            database: match database {
                Some(s) => s,
                None => String::from_str("db1"),
            },
        }
    }

    /// The address of the connection.
    pub fn connection_url(&self) -> (r: String)
        ensures
            r@ == url_text(
                self.user@,
                self.password@,
                self.host@,
                self.port as nat,
                self.database@,
            ),
    {
        let mut out: String = String::from_str("mysql://");
        out.append(self.user.as_str());
        out.append(":");
        out.append(self.password.as_str());
        out.append("@");
        out.append(self.host.as_str());
        out.append(":");
        push_nat(&mut out, self.port as u64);
        out.append("/");
        out.append(self.database.as_str());
        out
    }
}

} // verus!
