//! Authentication: an ordered chain of providers, each of which may know
//! who sent a request.
use vstd::prelude::*;
use vstd::string::{StringExecFns, StringSliceAdditionalSpecFns};

use crate::models::User;
use crate::patterns::{compile, group_captures, group_matches, regex_compiles, texts, Pattern};
use crate::users::{has_email, Users};

verus! {

/// The kinds of errors that authentication providers report.
#[derive(Debug)]
pub enum ErrorKind {
    /// A free-form message.
    Msg(String),
}

impl ErrorKind {
    /// An error kind that carries the message `s`.
    pub fn msg(s: &str) -> (r: ErrorKind)
        ensures
            r == ErrorKind::Msg(r->Msg_0) && r->Msg_0@ == s@,
    {
        ErrorKind::Msg(s.to_owned())
    }
}

/// The error an authentication provider returns.
#[derive(Debug)]
pub struct Error {
    pub kind: ErrorKind,
}

impl Error {
    /// An error of kind `kind`.
    pub fn new(kind: ErrorKind) -> (r: Error)
        ensures
            r.kind == kind,
    {
        Error { kind }
    }

    /// An error whose kind carries the message `s`.
    pub fn with_msg(s: &str) -> (r: Error)
        ensures
            r.kind is Msg && r.kind->Msg_0@ == s@,
    {
        Error { kind: ErrorKind::msg(s) }
    }
}

/// What authentication looks at in a request: its headers, in order, and the
/// value of the private login cookie, if one came.
#[derive(Debug)]
pub struct Request {
    pub headers: Vec<(String, String)>,
    pub login_cookie: Option<String>,
}

/// The value of the first header named `name` at position `i` or later.
pub open spec fn header_from(headers: Seq<(String, String)>, name: Seq<char>, i: int) -> Option<String>
    decreases headers.len() - i,
{
    if i < 0 || i >= headers.len() {
        None
    } else if headers[i].0@ == name {
        Some(headers[i].1)
    } else {
        header_from(headers, name, i + 1)
    }
}

impl Request {
    /// The value of the first header named `name`.
    pub fn header(&self, name: &String) -> (r: Option<&String>)
        ensures
            r is None ==> header_from(self.headers@, name@, 0) is None,
            r is Some ==> header_from(self.headers@, name@, 0) == Some(*r.unwrap()),
    {
        let mut i: usize = 0;
        while i < self.headers.len()
            invariant
                i <= self.headers@.len(),
                header_from(self.headers@, name@, 0) == header_from(self.headers@, name@, i as int),
            decreases self.headers@.len() - i,
        {
            if self.headers[i].0 == *name {
                return Some(&self.headers[i].1);
            }
            i = i + 1;
        }
        None
    }
}

/// A way of telling who sent a request. `Ok(None)` means this provider does
/// not know, and the next one is asked; an error ends the chain.
pub trait Auth {
    fn authenticate(&self, users: &mut Users, req: &Request) -> Result<Option<User>, Error>;
}

/// How a request was authenticated.
#[derive(Debug)]
pub enum AuthOutcome {
    /// A provider named the user.
    Authenticated(User),
    /// No provider knew the sender.
    Unauthorized,
    /// The provider at `index` failed.
    Failed { index: usize, error: Error },
}

/// What the chain does with the answer of the provider at `index`: `None`
/// to ask the next one, or how the request ends up.
pub fn chain_step(index: usize, answer: Result<Option<User>, Error>) -> (r: Option<AuthOutcome>)
    ensures
        match answer {
            Ok(None) => r is None,
            Ok(Some(u)) => r == Some(AuthOutcome::Authenticated(u)),
            Err(e) => r == Some(AuthOutcome::Failed { index, error: e }),
        },
{
    match answer {
        Ok(Some(user)) => Some(AuthOutcome::Authenticated(user)),
        Ok(None) => None,
        Err(error) => Some(AuthOutcome::Failed { index, error }),
    }
}

/// The registered providers, in the order in which they are asked.
pub struct Auths<A> {
    pub auths: Vec<A>,
}

impl<A: Auth> Auths<A> {
    /// No providers.
    pub fn new() -> (r: Auths<A>)
        ensures
            r.auths@.len() == 0,
    {
        Auths { auths: Vec::new() }
    }

    /// Registers `auth` after the ones already there.
    pub fn push(&mut self, auth: A)
        ensures
            final(self).auths@ == old(self).auths@.push(auth),
    {
        self.auths.push(auth);
    }

    /// Asks each provider in turn until one names the user or fails.
    pub fn authenticate(&self, users: &mut Users, req: &Request) -> (r: AuthOutcome)
        ensures
            r matches AuthOutcome::Failed { index, .. } ==> index < self.auths@.len(),
            r is Authenticated ==> self.auths@.len() > 0,
            self.auths@.len() == 0 ==> r is Unauthorized,
    {
        let mut i: usize = 0;
        while i < self.auths.len()
            invariant
                i <= self.auths@.len(),
            decreases self.auths@.len() - i,
        {
            match chain_step(i, self.auths[i].authenticate(users, req)) {
                Some(outcome) => {
                    return outcome;
                },
                None => {},
            }
            i = i + 1;
        }
        AuthOutcome::Unauthorized
    }
}

/// Whether every character of the non-empty text is an ASCII digit.
pub open spec fn all_digits(s: Seq<char>) -> bool {
    s.len() > 0 && forall|i: int| 0 <= i < s.len() ==> '0' <= #[trigger] s[i] && s[i] <= '9'
}

/// The number that a text of ASCII digits writes in base ten.
pub open spec fn digits_value(s: Seq<char>) -> int
    decreases s.len(),
{
    if s.len() == 0 {
        0
    } else {
        digits_value(s.drop_last()) * 10 + (s.last() as int - '0' as int)
    }
}

/// What `str::parse::<i32>` makes of a text: an optional `+` or `-`, then
/// one or more ASCII digits, whose value must fit in an `i32`.
pub open spec fn decimal_i32(s: Seq<char>) -> Option<i32> {
    let neg = s.len() > 0 && s[0] == '-';
    let digits = if s.len() > 0 && (s[0] == '-' || s[0] == '+') {
        s.drop_first()
    } else {
        s
    };
    let v = if neg {
        -digits_value(digits)
    } else {
        digits_value(digits)
    };
    if all_digits(digits) && i32::MIN <= v <= i32::MAX {
        Some(v as i32)
    } else {
        None
    }
}

/// Relies on `str::parse::<i32>` (`i32::from_str` in base ten): an optional
/// sign, then ASCII digits, and an error for anything else or a value out of
/// range.
#[verifier::external_body]
fn parse_i32(s: &str) -> (r: Option<i32>)
    ensures
        r == decimal_i32(s@),
{
    s.parse::<i32>().ok()
}

/// Authenticates by a login cookie that holds the user's id, and by nothing
/// else.
#[derive(Debug)]
pub struct Dummy;

/// The user whose id the cookie names, if the cookie came, parses and names
/// a known user.
pub open spec fn dummy_user_id(users: Seq<User>, cookie: Option<String>) -> Option<i32> {
    match cookie {
        Some(c) => match decimal_i32(c@) {
            Some(id) => if exists|k: int| 0 <= k < users.len() && users[k].id == id {
                Some(id)
            } else {
                None
            },
            None => None,
        },
        None => None,
    }
}

impl Auth for Dummy {
    fn authenticate(&self, users: &mut Users, req: &Request) -> (r: Result<Option<User>, Error>)
        ensures
            *final(users) == *old(users),
            r is Ok,
            dummy_user_id(old(users).users@, req.login_cookie) is None ==> r == Ok::<
                Option<User>,
                Error,
            >(None),
            dummy_user_id(old(users).users@, req.login_cookie) is Some ==> r->Ok_0 is Some
                && r->Ok_0->Some_0.id == dummy_user_id(old(users).users@, req.login_cookie)->Some_0,
    {
        let cookie = match &req.login_cookie {
            Some(c) => c,
            None => return Ok(None),
        };
        let id = match parse_i32(cookie.as_str()) {
            Some(id) => id,
            None => return Ok(None),
        };
        match users.by_id(id) {
            Some(i) => Ok(Some(users.get(i))),
            None => Ok(None),
        }
    }
}

/// The first text among `s`.
pub open spec fn first_text(s: Seq<Option<Seq<char>>>) -> Option<Seq<char>>
    decreases s.len(),
{
    if s.len() == 0 {
        None
    } else if s[0] is Some {
        s[0]
    } else {
        first_text(s.drop_first())
    }
}

/// The first text among `caps`.
pub fn first_capture(caps: Vec<Option<String>>) -> (r: Option<String>)
    ensures
        r is None ==> first_text(texts(caps@)) is None,
        r is Some ==> first_text(texts(caps@)) == Some(r->Some_0@),
{
    let ghost all = caps@;
    let mut rest = caps;
    let mut i: usize = 0;
    assert(texts(all).skip(0) =~= texts(all));
    while i < rest.len()
        invariant
            rest@ == all,
            caps@ == all,
            i <= rest@.len(),
            first_text(texts(all)) == first_text(texts(all).skip(i as int)),
        decreases rest@.len() - i,
    {
        assert(texts(all).skip(i as int)[0] == texts(all)[i as int]);
        if rest[i].is_some() {
            let r = rest.swap_remove(i);
            assert(all[i as int] == r);
            return r;
        }
        assert(texts(all).skip(i as int).drop_first() =~= texts(all).skip(i + 1));
        i = i + 1;
    }
    None
}

/// Whether the text holds an `@`. In UTF-8 the byte 0x40 encodes `@` and
/// nothing else.
pub open spec fn has_at_sign(s: Seq<char>) -> bool {
    vstd::utf8::encode_utf8(s).contains(64u8)
}

/// `email`, with `suffix` appended when it holds no `@`.
pub fn with_default_domain(email: &str, suffix: &str) -> (r: String)
    ensures
        r@ == (if has_at_sign(email@) {
            email@
        } else {
            email@ + suffix@
        }),
{
    let bytes = email.as_bytes();
    let mut i: usize = 0;
    while i < bytes.len()
        invariant
            bytes@ == email.spec_bytes(),
            i <= bytes@.len(),
            forall|k: int| 0 <= k < i ==> bytes@[k] != 64u8,
        decreases bytes@.len() - i,
    {
        if bytes[i] == 64u8 {
            assert(email.spec_bytes()[i as int] == 64u8);
            return email.to_owned();
        }
        i = i + 1;
    }
    let mut r = email.to_owned();
    r.append(suffix);
    r
}

/// The header read when the configuration names none.
pub const DEFAULT_HEADER: &'static str = "X-Bellhop-Email";

/// The pattern used when the configuration gives none: the whole header
/// value is the email address.
pub const DEFAULT_PATTERN: &'static str = "(?P<email>.*)";

/// Authenticates by a header that carries the user's email address, and
/// registers users it has not seen before.
#[derive(Debug)]
pub struct Header {
    /// The name of the header to read.
    pub header_name: String,
    /// Appended to an address without an `@`: `@` and the default domain,
    /// or nothing.
    pub suffix: String,
    /// Finds the address in the header value, in its group named `email`.
    pub pattern: Pattern,
}

/// Whether `after` is `before` with one user added at the end, who has the
/// id and the address of `u`.
pub open spec fn added_user(before: Seq<User>, after: Seq<User>, u: User) -> bool {
    &&& after.len() == before.len() + 1
    &&& after.take(before.len() as int) == before
    &&& after.last().id == u.id
    &&& after.last().email@ == u.email@
}

/// The configured value, or the default.
pub open spec fn or_default(v: Option<&str>, default: &str) -> Seq<char> {
    match v {
        Some(s) => s@,
        None => default@,
    }
}

impl Header {
    /// The provider for the configured header name, pattern and default
    /// domain; each falls back to its default. `None` when the pattern does
    /// not compile.
    pub fn from_config(
        auth_header: Option<&str>,
        pattern: Option<&str>,
        default_domain: Option<&str>,
    ) -> (r: Option<Header>)
        ensures
            r is Some <==> regex_compiles(or_default(pattern, DEFAULT_PATTERN)),
            r is Some ==> r->Some_0.header_name@ == or_default(auth_header, DEFAULT_HEADER),
            r is Some ==> r->Some_0.pattern.text() == or_default(pattern, DEFAULT_PATTERN),
            r is Some ==> r->Some_0.suffix@ == match default_domain {
                Some(d) => seq!['@'] + d@,
                None => Seq::<char>::empty(),
            },
    {
        let name = match auth_header {
            Some(h) => h,
            None => DEFAULT_HEADER,
        };
        let pattern = match pattern {
            Some(p) => p,
            None => DEFAULT_PATTERN,
        };
        let suffix = match default_domain {
            Some(d) => {
                let mut s = "@".to_owned();
                s.append(d);
                proof {
                    reveal_strlit("@");
                }
                s
            },
            None => String::new(),
        };
        let compiled = match compile(pattern) {
            Some(p) => p,
            None => return None,
        };
        Some(Header { header_name: name.to_owned(), suffix, pattern: compiled })
    }
}

impl Header {
    /// The address found in `headers`: the first header with the configured
    /// name, when it is not empty, matched against the pattern; the text of
    /// the first `email` group found, with the suffix appended when it holds
    /// no `@`.
    pub open spec fn email_in(&self, headers: Seq<(String, String)>) -> Option<Seq<char>> {
        match header_from(headers, self.header_name@, 0) {
            None => None,
            Some(v) => if v@.len() == 0 {
                None
            } else {
                match first_text(group_matches(self.pattern.text(), v@, "email"@)) {
                    None => None,
                    Some(e) => Some(
                        if has_at_sign(e) {
                            e
                        } else {
                            e + self.suffix@
                        },
                    ),
                }
            },
        }
    }
}

impl Auth for Header {
    /// Returns the first user with the address found in the request, and
    /// registers one under the next id when there is none.
    fn authenticate(&self, users: &mut Users, req: &Request) -> (r: Result<Option<User>, Error>)
        ensures
            old(users).wf() ==> final(users).wf(),
            self.email_in(req.headers@) is None ==> r == Ok::<Option<User>, Error>(None)
                && final(users).users@ == old(users).users@,
            self.email_in(req.headers@) is Some && has_email(
                old(users).users@,
                self.email_in(req.headers@)->Some_0,
            ) ==> final(users).users@ == old(users).users@ && r is Ok && r->Ok_0 is Some
                && r->Ok_0->Some_0.email@ == self.email_in(req.headers@)->Some_0 && exists|k: int|
                0 <= k < old(users).users@.len() && old(users).users@[k].id == r->Ok_0->Some_0.id
                    && old(users).users@[k].email@ == self.email_in(req.headers@)->Some_0,
            self.email_in(req.headers@) is Some && !has_email(
                old(users).users@,
                self.email_in(req.headers@)->Some_0,
            ) && old(users).next_id < i32::MAX ==> r is Ok && r->Ok_0 is Some
                && r->Ok_0->Some_0.email@ == self.email_in(req.headers@)->Some_0
                && r->Ok_0->Some_0.id == old(users).next_id && added_user(
                old(users).users@,
                final(users).users@,
                r->Ok_0->Some_0,
            ),
            self.email_in(req.headers@) is Some && !has_email(
                old(users).users@,
                self.email_in(req.headers@)->Some_0,
            ) && old(users).next_id == i32::MAX ==> r is Err
                && final(users).users@ == old(users).users@,
    {
        let header = match req.header(&self.header_name) {
            Some(h) => h,
            None => return Ok(None),
        };
        if header.as_str().is_empty() {
            return Ok(None);
        }
        proof {
            reveal_strlit("email");
        }
        let email = match first_capture(group_captures(&self.pattern, header.as_str(), "email")) {
            Some(e) => e,
            None => return Ok(None),
        };
        let email = with_default_domain(email.as_str(), self.suffix.as_str());
        match users.by_email(&email) {
            Some(i) => Ok(Some(users.get(i))),
            None => {
                match users.register(&email) {
                    Some(i) => Ok(Some(users.get(i))),
                    None => Err(Error::with_msg("unable to insert new user from header")),
                }
            },
        }
    }
}

} // verus!
