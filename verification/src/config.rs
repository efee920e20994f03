//! The plain values handed to the backend and to the GUI layer: the
//! connection string, the launch arguments, the URL built from a discovered
//! port, and the script that injects that URL into the page.
use vstd::prelude::*;

verus! {

/// The decimal digit characters, `0` through `9`.
pub open spec fn digit_char(d: int) -> char {
    if d == 0 {
        '0'
    } else if d == 1 {
        '1'
    } else if d == 2 {
        '2'
    } else if d == 3 {
        '3'
    } else if d == 4 {
        '4'
    } else if d == 5 {
        '5'
    } else if d == 6 {
        '6'
    } else if d == 7 {
        '7'
    } else if d == 8 {
        '8'
    } else {
        '9'
    }
}

/// The decimal rendering of `n`, most significant digit first, without
/// leading zeroes.
pub open spec fn dec_rep(n: int) -> Seq<char>
    decreases n
        when n >= 0
{
    if n < 10 {
        seq![digit_char(n)]
    } else {
        dec_rep(n / 10) + seq![digit_char(n % 10)]
    }
}

fn digit_str(d: u16) -> (r: &'static str)
    requires
        d < 10,
    ensures
        r@ == seq![digit_char(d as int)],
{
    proof {
        reveal_strlit("0");
        reveal_strlit("1");
        reveal_strlit("2");
        reveal_strlit("3");
        reveal_strlit("4");
        reveal_strlit("5");
        reveal_strlit("6");
        reveal_strlit("7");
        reveal_strlit("8");
        reveal_strlit("9");
    }
    let r = if d == 0 {
        "0"
    } else if d == 1 {
        "1"
    } else if d == 2 {
        "2"
    } else if d == 3 {
        "3"
    } else if d == 4 {
        "4"
    } else if d == 5 {
        "5"
    } else if d == 6 {
        "6"
    } else if d == 7 {
        "7"
    } else if d == 8 {
        "8"
    } else {
        "9"
    };
    proof {
        assert(r@ =~= seq![digit_char(d as int)]);
    }
    r
}

/// Renders a port number in decimal.
pub fn u16_to_string(n: u16) -> (r: String)
    ensures
        r@ == dec_rep(n as int),
    decreases n,
{
    if n < 10 {
        String::from_str(digit_str(n))
    } else {
        let mut s = u16_to_string(n / 10);
        s.append(digit_str(n % 10));
        s
    }
}

/// The URL the GUI is pointed at once the backend's port is known.
pub open spec fn backend_url_view(port: u16) -> Seq<char> {
    "http://localhost:"@ + dec_rep(port as int)
}

/// Builds `http://localhost:<port>`.
pub fn backend_url(port: u16) -> (r: String)
    ensures
        r@ == backend_url_view(port),
{
    let mut s = String::from_str("http://localhost:");
    let digits = u16_to_string(port);
    s.append(digits.as_str());
    s
}

/// The connection string handed to the backend: `sqlite:///` followed by
/// the database path with every backslash turned into a forward slash.
pub open spec fn connection_view(path: Seq<char>) -> Seq<char> {
    "sqlite:///"@ + path.map_values(
        |c: char|
            if c == '\\' {
                '/'
            } else {
                c
            },
    )
}

/// Builds the connection string for the database at `db_path`.
pub fn connection_string(db_path: &str) -> (r: String)
    ensures
        r@ == connection_view(db_path@),
{
    let n = db_path.unicode_len();
    let mut out = String::from_str("sqlite:///");
    let mut i: usize = 0;
    while i < n
        invariant
            n == db_path@.len(),
            i <= n,
            out@ == "sqlite:///"@ + db_path@.subrange(0, i as int).map_values(
                |c: char|
                    if c == '\\' {
                        '/'
                    } else {
                        c
                    },
            ),
        decreases n - i,
    {
        let c = db_path.get_char(i);
        if c == '\\' {
            out.append("/");
            proof {
                reveal_strlit("/");
            }
        } else {
            let piece = db_path.substring_char(i, i + 1);
            out.append(piece);
        }
        proof {
            let f = |c: char|
                if c == '\\' {
                    '/'
                } else {
                    c
                };
            assert(db_path@.subrange(0, i as int + 1).map_values(f) =~= db_path@.subrange(
                0,
                i as int,
            ).map_values(f) + seq![f(db_path@[i as int])]);
            assert(out@ =~= "sqlite:///"@ + db_path@.subrange(0, i as int + 1).map_values(f));
        }
        i = i + 1;
    }
    proof {
        assert(db_path@.subrange(0, n as int) =~= db_path@);
    }
    out
}

/// The script evaluated in the page once a port is discovered: it records
/// the URL in a global, in local storage, and hands it to the page's update
/// callback if one is registered.
pub open spec fn injection_script_view(url: Seq<char>) -> Seq<char> {
    "window.__BACKEND_URL__ = '"@ + url
        + "'; if (typeof localStorage !== 'undefined') { localStorage.setItem('backend_url', '"@
        + url + "'); } if (window.updateApiBaseURL) { window.updateApiBaseURL('"@ + url + "'); }"@
}

/// Builds the injection script for `url`.
pub fn injection_script(url: &str) -> (r: String)
    ensures
        r@ == injection_script_view(url@),
{
    let mut s = String::from_str("window.__BACKEND_URL__ = '");
    s.append(url);
    s.append("'; if (typeof localStorage !== 'undefined') { localStorage.setItem('backend_url', '");
    s.append(url);
    s.append("'); } if (window.updateApiBaseURL) { window.updateApiBaseURL('");
    s.append(url);
    s.append("'); }");
    proof {
        assert(s@ =~= injection_script_view(url@));
    }
    s
}

} // verus!
