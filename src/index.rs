use vstd::prelude::*;

use crate::error::SanitizeError;

verus! {

/// The path under the index host at which a package's version history lives.
pub open spec fn key_path(name: Seq<char>) -> Seq<char> {
    if name.len() == 1 {
        seq!['1', '/'] + name
    } else if name.len() == 2 {
        seq!['2', '/'] + name
    } else if name.len() == 3 {
        seq!['3', '/'] + name.subrange(0, 1) + seq!['/'] + name
    } else {
        name.subrange(0, 2) + seq!['/'] + name.subrange(2, 4) + seq!['/'] + name
    }
}

/// Maps a package name to its sharded index path: `1/a`, `2/ab`, `3/a/abc`,
/// `se/rd/serde`. The empty name has none.
pub fn crate_key(s: String) -> (r: Result<String, SanitizeError>)
    ensures
        s@.len() == 0 <==> r == Err::<String, SanitizeError>(SanitizeError::InvalidCrateName),
        s@.len() > 0 ==> (r matches Ok(k) && k@ == key_path(s@)),
{
    let name = s.as_str();
    let n = name.unicode_len();
    if n == 0 {
        return Err(SanitizeError::InvalidCrateName);
    }
    proof {
        reveal_strlit("/");
    }
    let mut out: String;
    if n == 1 {
        proof { reveal_strlit("1/"); }
        out = String::from_str("1/");
    } else if n == 2 {
        proof { reveal_strlit("2/"); }
        out = String::from_str("2/");
    } else if n == 3 {
        proof { reveal_strlit("3/"); }
        out = String::from_str("3/");
        out.append(name.substring_char(0, 1));
        out.append("/");
    } else {
        out = String::from_str(name.substring_char(0, 2));
        out.append("/");
        out.append(name.substring_char(2, 4));
        out.append("/");
    }
    out.append(name);
    Ok(out)
}

/// The index path with the host in front.
pub open spec fn index_url_of(name: Seq<char>) -> Seq<char> {
    index_host() + key_path(name)
}

pub open spec fn index_host() -> Seq<char> {
    seq![
        'h', 't', 't', 'p', 's', ':', '/', '/', 'i', 'n', 'd', 'e', 'x', '.', 'c', 'r', 'a', 't',
        'e', 's', '.', 'i', 'o', '/',
    ]
}

/// Where the registry index keeps a package's version history.
pub fn index_url(name: String) -> (r: Result<String, SanitizeError>)
    ensures
        name@.len() == 0 <==> r == Err::<String, SanitizeError>(SanitizeError::InvalidCrateName),
        name@.len() > 0 ==> (r matches Ok(u) && u@ == index_url_of(name@)),
{
    let key = crate_key(name)?;
    proof {
        reveal_strlit("https://index.crates.io/");
    }
    let mut url = String::from_str("https://index.crates.io/");
    url.append(key.as_str());
    Ok(url)
}

/// The text with a comma put before every line break.
pub open spec fn separated(s: Seq<char>) -> Seq<char>
    decreases s.len(),
{
    if s.len() == 0 {
        s
    } else if s.last() == '\n' {
        separated(s.drop_last()) + seq![',', '\n']
    } else {
        separated(s.drop_last()).push(s.last())
    }
}

/// One record per line, turned into one array: a comma before each line
/// break, the comma and line break that end the text dropped, the whole in
/// brackets.
pub open spec fn framed(body: Seq<char>) -> Seq<char> {
    let t = separated(body);
    let trimmed = if t.len() >= 2 && t[t.len() - 2] == ',' && t[t.len() - 1] == '\n' {
        t.take(t.len() - 2)
    } else {
        t
    };
    seq!['['] + trimmed + seq![']']
}

/// Turns the index's line-per-record answer into a single array text.
pub fn reframe_index_body(body: &str) -> (r: String)
    ensures
        r@ == framed(body@),
{
    proof {
        reveal_strlit("[");
        reveal_strlit("]");
        reveal_strlit(",");
    }
    let n = body.unicode_len();
    let mut t = String::from_str("[");
    let mut i: usize = 0;
    while i < n
        invariant
            n == body@.len(),
            i <= n,
            t@ == seq!['['] + separated(body@.take(i as int)),
        decreases n - i,
    {
        let c = body.get_char(i);
        let ghost before = t@;
        proof {
            assert(body@.take(i as int + 1).drop_last() == body@.take(i as int));
            assert(body@.take(i as int + 1).last() == c);
        }
        if c == '\n' {
            t.append(",");
            t.append(body.substring_char(i, i + 1));
            proof {
                assert(body@.subrange(i as int, i as int + 1) =~= seq![c]);
                reveal_strlit(",");
                assert(","@ =~= seq![',']);
                assert(t@ =~= before + seq![','] + seq![c]);
                assert(separated(body@.take(i as int + 1)) == separated(body@.take(i as int))
                    + seq![',', '\n']);
                assert(t@ =~= seq!['['] + separated(body@.take(i as int + 1)));
            }
        } else {
            t.append(body.substring_char(i, i + 1));
            proof {
                assert(body@.subrange(i as int, i as int + 1) =~= seq![c]);
                assert(t@ =~= seq!['['] + separated(body@.take(i as int + 1)));
            }
        }
        i = i + 1;
    }
    proof {
        assert(body@.take(n as int) == body@);
    }
    let len = t.as_str().unicode_len();
    let mut cut = len;
    if len >= 3 && t.as_str().get_char(len - 2) == ',' && t.as_str().get_char(len - 1) == '\n' {
        cut = len - 2;
    }
    let mut r = String::from_str(t.as_str().substring_char(0, cut));
    r.append("]");
    proof {
        let sep = separated(body@);
        assert(t@ == seq!['['] + sep);
        if sep.len() >= 2 && sep[sep.len() - 2] == ',' && sep[sep.len() - 1] == '\n' {
            assert(t@[len - 2] == ',' && t@[len - 1] == '\n');
            assert(t@.take(cut as int) =~= seq!['['] + sep.take(sep.len() - 2));
        } else {
            assert(t@.take(cut as int) =~= t@);
        }
    }
    r
}

} // verus!
