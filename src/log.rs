//! One synthetic access-log record and its rendering in the combined format:
//! `ADDR - USER [DD/Mon/YYYY:HH:MM:SS +0100] "REQUEST" STATUS BYTES "REFERER" "AGENT"`.
use crate::date::{format_time_local, time_local_text, Date};
use crate::text::{append_decimal, decimal_text};
use rand::Rng;
use vstd::prelude::*;

verus! {

pub open spec fn remote_user_pool() -> Seq<Seq<char>> {
    seq!["-"@, "root"@]
}

pub open spec fn request_pool() -> Seq<Seq<char>> {
    seq!["GET / HTTP/1.1"@, "GET /index.html HTTP/1.1"@, "POST /foo/admin/formLogin HTTP/1.1"@]
}

pub open spec fn status_pool() -> Seq<u64> {
    seq![200, 301, 400, 404, 405]
}

pub open spec fn body_bytes_sent_pool() -> Seq<u64> {
    seq![77, 118, 150, 361, 125837]
}

pub open spec fn http_referer_pool() -> Seq<Seq<char>> {
    seq!["-"@, "http://foo-referer/login.asp"@]
}

pub open spec fn http_user_agent_pool() -> Seq<Seq<char>> {
    seq![
        "Mozilla/5.0 (X11; Ubuntu; Linux x86_64; rv:71.0) Gecko/20100101 Firefox/71.0"@,
        "Mozilla/5.0 (X11; Linux x86_64) AppleWebKit/537.36 (KHTML, like Gecko) Chrome/70.0.3538.67 Safari/537.36"@,
        "Mozilla/5.0 (Windows NT 10.0; Win64; x64) AppleWebKit/537.36 (KHTML, like Gecko) Chrome/60.0.3112.113 Safari/537.36"@,
    ]
}

/// The values picked for the fields of one record: the four octets of the
/// client address and, for every other field, a position in its pool.
#[derive(Clone, Copy, Debug)]
pub struct FieldChoices {
    pub remote_addr: [u8; 4],
    pub remote_user: usize,
    pub request: usize,
    pub status: usize,
    pub body_bytes_sent: usize,
    pub http_referer: usize,
    pub http_user_agent: usize,
}

impl FieldChoices {
    /// Every position lies within its pool.
    pub open spec fn wf(self) -> bool {
        &&& self.remote_user < remote_user_pool().len()
        &&& self.request < request_pool().len()
        &&& self.status < status_pool().len()
        &&& self.body_bytes_sent < body_bytes_sent_pool().len()
        &&& self.http_referer < http_referer_pool().len()
        &&& self.http_user_agent < http_user_agent_pool().len()
    }

    /// The fixed values used to produce reproducible records: client
    /// 8.8.8.8, user `-`, `GET /index.html HTTP/1.1`, status 200, 118 bytes,
    /// the login referer and the Firefox agent.
    pub open spec fn fixed_spec() -> FieldChoices {
        FieldChoices {
            remote_addr: [8, 8, 8, 8],
            remote_user: 0,
            request: 1,
            status: 0,
            body_bytes_sent: 1,
            http_referer: 1,
            http_user_agent: 0,
        }
    }

    pub fn fixed() -> (r: FieldChoices)
        ensures
            r.wf(),
            r == FieldChoices::fixed_spec(),
    {
        FieldChoices {
            remote_addr: [8, 8, 8, 8],
            remote_user: 0,
            request: 1,
            status: 0,
            body_bytes_sent: 1,
            http_referer: 1,
            http_user_agent: 0,
        }
    }

    /// Each field drawn on its own and uniformly from its pool.
    pub fn random() -> (r: FieldChoices)
        ensures
            r.wf(),
    {
        let a = random_below(256) as u8;
        let b = random_below(256) as u8;
        let c = random_below(256) as u8;
        let d = random_below(256) as u8;
        FieldChoices {
            remote_addr: [a, b, c, d],
            remote_user: random_below(2),
            request: random_below(3),
            status: random_below(5),
            body_bytes_sent: random_below(5),
            http_referer: random_below(2),
            http_user_agent: random_below(3),
        }
    }
}

/// Relies on rand's `Rng::gen_range` on `thread_rng()`: a value drawn from
/// `0..n`, which must not be empty.
#[verifier::external_body]
fn random_below(n: usize) -> (r: usize)
    requires
        n > 0,
    ensures
        r < n,
{
    rand::thread_rng().gen_range(0..n)
}

/// Four octets written in decimal and joined by dots.
pub open spec fn address_text(a: [u8; 4]) -> Seq<char> {
    decimal_text(a@[0] as nat) + "."@ + decimal_text(a@[1] as nat) + "."@ + decimal_text(
        a@[2] as nat,
    ) + "."@ + decimal_text(a@[3] as nat)
}

/// One record at a given date.
#[derive(Clone, Copy, Debug)]
pub struct Log {
    pub date: Date,
    pub choices: FieldChoices,
}

impl Log {
    pub open spec fn wf(self) -> bool {
        self.date.wf() && self.choices.wf()
    }

    /// The record's line, without a line break.
    pub open spec fn text(self) -> Seq<char> {
        let c = self.choices;
        address_text(c.remote_addr) + " - "@ + remote_user_pool()[c.remote_user as int] + " "@
            + time_local_text(self.date) + " \""@ + request_pool()[c.request as int] + "\" "@
            + decimal_text(status_pool()[c.status as int] as nat) + " "@ + decimal_text(
            body_bytes_sent_pool()[c.body_bytes_sent as int] as nat,
        ) + " \""@ + http_referer_pool()[c.http_referer as int] + "\" \""@
            + http_user_agent_pool()[c.http_user_agent as int] + "\""@
    }

    pub fn new(date: Date, choices: FieldChoices) -> (r: Log)
        ensures
            r == (Log { date, choices }),
    {
        Log { date, choices }
    }

    /// Renders the record as one line of the combined log format.
    pub fn str(&self) -> (r: String)
        requires
            self.wf(),
        ensures
            r@ == self.text(),
    {
        let c = &self.choices;
        let mut s = String::new();
        self.remote_addr(&mut s);
        s.append(" - ");
        s.append(remote_user(c.remote_user));
        s.append(" ");
        s.append(format_time_local(&self.date).as_str());
        s.append(" \"");
        s.append(request(c.request));
        s.append("\" ");
        append_decimal(&mut s, status(c.status));
        s.append(" ");
        append_decimal(&mut s, body_bytes_sent(c.body_bytes_sent));
        s.append(" \"");
        s.append(http_referer(c.http_referer));
        s.append("\" \"");
        s.append(http_user_agent(c.http_user_agent));
        s.append("\"");
        s
    }

    /// With the fixed field values a line holds 185 characters, one more
    /// before year zero.
    pub proof fn lemma_fixed_text_len(date: Date)
        requires
            date.wf(),
        ensures
            (Log { date, choices: FieldChoices::fixed_spec() }).text().len() >= 185,
    {
        reveal_strlit(".");
        reveal_strlit(" - ");
        reveal_strlit("-");
        reveal_strlit(" ");
        reveal_strlit(" \"");
        reveal_strlit("GET /index.html HTTP/1.1");
        reveal_strlit("\" ");
        reveal_strlit("http://foo-referer/login.asp");
        reveal_strlit("\" \"");
        reveal_strlit("Mozilla/5.0 (X11; Ubuntu; Linux x86_64; rv:71.0) Gecko/20100101 Firefox/71.0");
        reveal_strlit("\"");
        reveal_with_fuel(decimal_text, 3);
        assert(decimal_text(8).len() == 1);
        assert(decimal_text(200).len() == 3);
        assert(decimal_text(118).len() == 3);
        assert(time_local_text(date).len() >= 28);
    }

    fn remote_addr(&self, s: &mut String)
        ensures
            final(s)@ == old(s)@ + address_text(self.choices.remote_addr),
    {
        let a = self.choices.remote_addr;
        append_decimal(s, a[0] as u64);
        s.append(".");
        append_decimal(s, a[1] as u64);
        s.append(".");
        append_decimal(s, a[2] as u64);
        s.append(".");
        append_decimal(s, a[3] as u64);
    }
}

fn remote_user(i: usize) -> (r: &'static str)
    requires
        i < remote_user_pool().len(),
    ensures
        r@ == remote_user_pool()[i as int],
{
    if i == 0 {
        "-"
    } else {
        "root"
    }
}

fn request(i: usize) -> (r: &'static str)
    requires
        i < request_pool().len(),
    ensures
        r@ == request_pool()[i as int],
{
    if i == 0 {
        "GET / HTTP/1.1"
    } else if i == 1 {
        "GET /index.html HTTP/1.1"
    } else {
        "POST /foo/admin/formLogin HTTP/1.1"
    }
}

fn status(i: usize) -> (r: u64)
    requires
        i < status_pool().len(),
    ensures
        r == status_pool()[i as int],
{
    if i == 0 {
        200
    } else if i == 1 {
        301
    } else if i == 2 {
        400
    } else if i == 3 {
        404
    } else {
        405
    }
}

fn body_bytes_sent(i: usize) -> (r: u64)
    requires
        i < body_bytes_sent_pool().len(),
    ensures
        r == body_bytes_sent_pool()[i as int],
{
    if i == 0 {
        77
    } else if i == 1 {
        118
    } else if i == 2 {
        150
    } else if i == 3 {
        361
    } else {
        125837
    }
}

fn http_referer(i: usize) -> (r: &'static str)
    requires
        i < http_referer_pool().len(),
    ensures
        r@ == http_referer_pool()[i as int],
{
    if i == 0 {
        "-"
    } else {
        "http://foo-referer/login.asp"
    }
}

fn http_user_agent(i: usize) -> (r: &'static str)
    requires
        i < http_user_agent_pool().len(),
    ensures
        r@ == http_user_agent_pool()[i as int],
{
    if i == 0 {
        "Mozilla/5.0 (X11; Ubuntu; Linux x86_64; rv:71.0) Gecko/20100101 Firefox/71.0"
    } else if i == 1 {
        "Mozilla/5.0 (X11; Linux x86_64) AppleWebKit/537.36 (KHTML, like Gecko) Chrome/70.0.3538.67 Safari/537.36"
    } else {
        "Mozilla/5.0 (Windows NT 10.0; Win64; x64) AppleWebKit/537.36 (KHTML, like Gecko) Chrome/60.0.3112.113 Safari/537.36"
    }
}

} // verus!
