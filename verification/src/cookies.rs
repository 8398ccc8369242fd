//! Which browser the session is taken from, and where its cookies belong.

use crate::text::{concat_str, trim_leading, without_leading};
use vstd::prelude::*;
use vstd::string::*;

verus! {

/// The browser whose cookie store holds the session.
#[derive(Debug, Clone, Copy, PartialEq, Eq, Structural)]
pub enum Browser {
    Firefox,
}

impl Default for Browser {
    fn default() -> (b: Self)
        ensures
            b == Browser::Firefox,
    {
        Browser::Firefox
    }
}

impl Browser {
    /// The browser's name in lower case.
    pub open spec fn name(self) -> Seq<char> {
        match self {
            Browser::Firefox => "firefox"@,
        }
    }

    /// The browser's name in lower case.
    pub fn as_str(&self) -> (s: &'static str)
        ensures
            s@ == self.name(),
    {
        match self {
            Browser::Firefox => "firefox",
        }
    }

    /// The browser's name as an owned string.
    pub fn to_string(&self) -> (s: String)
        ensures
            s@ == self.name(),
    {
        self.as_str().to_owned()
    }

    /// The browser with the given name, if there is one.
    pub fn from_name(name: &str) -> (r: Option<Browser>)
        ensures
            match r {
                Some(b) => b.name() == name@,
                None => forall|b: Browser| b.name() != name@,
            },
    {
        if name.to_owned() == "firefox".to_owned() {
            Some(Browser::Firefox)
        } else {
            None
        }
    }
}

/// The domains whose cookies make up the session: the service's own domain,
/// and the same with a leading dot, which stands for its subdomains.
pub fn cookie_domains() -> (v: Vec<String>)
    ensures
        v@.len() == 2,
        v@[0]@ == "bandcamp.com"@,
        v@[1]@ == ".bandcamp.com"@,
{
    let mut v: Vec<String> = Vec::new();
    v.push("bandcamp.com".to_owned());
    v.push(".bandcamp.com".to_owned());
    v
}

/// The address that a cookie is filed under: `https://`, the cookie's domain
/// without leading dots, and its path.
pub open spec fn origin_text(domain: Seq<char>, path: Seq<char>) -> Seq<char> {
    "https://"@ + without_leading(domain, '.') + path
}

/// The address under which a cookie of the given domain and path is filed.
pub fn cookie_origin(domain: &str, path: &str) -> (s: String)
    ensures
        s@ == origin_text(domain@, path@),
{
    let host = trim_leading(domain, '.');
    let mut s = concat_str("https://", host.as_str());
    s.append(path);
    s
}

/// The time at which a cookie expires as signed seconds since the epoch;
/// `None` for a time that a signed 64-bit number cannot hold.
pub fn expiry_seconds(expires: u64) -> (r: Option<i64>)
    ensures
        expires <= i64::MAX ==> r == Some(expires as i64),
        expires > i64::MAX ==> r is None,
{
    if expires <= 0x7fff_ffff_ffff_ffff {
        Some(expires as i64)
    } else {
        None
    }
}

} // verus!
