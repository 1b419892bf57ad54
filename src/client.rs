//! Choosing a renderer for a client by its user agent.
use vstd::prelude::*;
use vstd::string::*;

verus! {

/// The number of user agents known to want terminal output.
pub const TERMINAL_AGENT_COUNT: usize = 12;

/// The user agents known to want terminal output.
pub open spec fn terminal_agent_text(i: int) -> Seq<char> {
    if i == 0 {
        "aiohttp"@
    } else if i == 1 {
        "curl"@
    } else if i == 2 {
        "fetch"@
    } else if i == 3 {
        "http_get"@
    } else if i == 4 {
        "httpie"@
    } else if i == 5 {
        "lwp-request"@
    } else if i == 6 {
        "openbsd ftp"@
    } else if i == 7 {
        "powershell"@
    } else if i == 8 {
        "python-httpx"@
    } else if i == 9 {
        "python-requests"@
    } else if i == 10 {
        "wget"@
    } else {
        "xh"@
    }
}

/// Whether `p` occurs in `s`.
pub open spec fn text_contains(s: Seq<char>, p: Seq<char>) -> bool {
    exists|i: int| 0 <= i <= s.len() - p.len() && #[trigger] s.subrange(i, i + p.len()) == p
}

/// Whether a user agent names a client that wants terminal output.
pub open spec fn is_terminal_agent(ua: Seq<char>) -> bool {
    exists|i: int| 0 <= i < TERMINAL_AGENT_COUNT && text_contains(ua, #[trigger] terminal_agent_text(i))
}

/// The renderer that a client gets.
#[derive(Clone, Copy, Debug, PartialEq, Eq, Structural)]
pub enum RenderChoice {
    Terminal,
    Browser,
}

/// The `i`-th user agent that wants terminal output.
fn terminal_agent(i: usize) -> (r: &'static str)
    requires
        i < TERMINAL_AGENT_COUNT,
    ensures
        r@ == terminal_agent_text(i as int),
{
    match i {
        0 => "aiohttp",
        1 => "curl",
        2 => "fetch",
        3 => "http_get",
        4 => "httpie",
        5 => "lwp-request",
        6 => "openbsd ftp",
        7 => "powershell",
        8 => "python-httpx",
        9 => "python-requests",
        10 => "wget",
        _ => "xh",
    }
}

/// Whether `p` occurs in `s`.
pub fn contains(s: &str, p: &str) -> (r: bool)
    ensures
        r == text_contains(s@, p@),
{
    let n = s.unicode_len();
    let m = p.unicode_len();
    if m > n {
        return false;
    }
    let mut i: usize = 0;
    while i <= n - m
        invariant
            m <= n,
            n == s@.len(),
            m == p@.len(),
            forall|k: int| 0 <= k < i ==> #[trigger] s@.subrange(k, k + m) != p@,
        decreases n - m + 1 - i,
    {
        let mut j: usize = 0;
        while j < m && s.get_char(i + j) == p.get_char(j)
            invariant
                j <= m,
                i + m <= n,
                m <= n,
                n == s@.len(),
                m == p@.len(),
                forall|l: int| 0 <= l < j ==> s@[i + l] == p@[l],
            decreases m - j,
        {
            j = j + 1;
        }
        if j == m {
            assert(s@.subrange(i as int, i + m) =~= p@);
            return true;
        }
        assert(s@.subrange(i as int, i + m)[j as int] != p@[j as int]);
        i = i + 1;
    }
    false
}

impl RenderChoice {
    /// Terminal output for a user agent that names a known terminal client,
    /// browser output for any other.
    pub fn from_user_agent(user_agent: &str) -> (r: RenderChoice)
        ensures
            r == if is_terminal_agent(user_agent@) {
                RenderChoice::Terminal
            } else {
                RenderChoice::Browser
            },
    {
        let mut i: usize = 0;
        while i < TERMINAL_AGENT_COUNT
            invariant
                forall|k: int|
                    0 <= k < i ==> !text_contains(user_agent@, #[trigger] terminal_agent_text(k)),
            decreases TERMINAL_AGENT_COUNT - i,
        {
            if contains(user_agent, terminal_agent(i)) {
                return RenderChoice::Terminal;
            }
            i = i + 1;
        }
        RenderChoice::Browser
    }
}

} // verus!
