//! Selectors and paths: splitting on separators, normalising to
//! forward-slash form, resolving against the root, recognising `cgi-bin`.
use vstd::prelude::*;
use crate::text::{push_char, trim, trimmed};

verus! {

/// The pieces of `p` between occurrences of `sep`, empty pieces included
/// (as `str::split` gives them).
pub open spec fn pieces(p: Seq<char>, sep: char) -> Seq<Seq<char>>
    decreases p.len(),
{
    if p.len() == 0 {
        seq![Seq::empty()]
    } else {
        let q = pieces(p.drop_last(), sep);
        if p.last() == sep {
            q.push(Seq::empty())
        } else {
            q.update(q.len() - 1, q.last().push(p.last()))
        }
    }
}

/// A piece that names something: neither empty nor `.`.
pub open spec fn is_named(s: Seq<char>) -> bool {
    s.len() > 0 && s != seq!['.']
}

/// The named pieces of `s`, in order.
pub open spec fn keep_named(s: Seq<Seq<char>>) -> Seq<Seq<char>>
    decreases s.len(),
{
    if s.len() == 0 {
        s
    } else if is_named(s.last()) {
        keep_named(s.drop_last()).push(s.last())
    } else {
        keep_named(s.drop_last())
    }
}

/// The segments of a path: what lies between slashes, without empty and `.`
/// segments.
pub open spec fn segments(p: Seq<char>) -> Seq<Seq<char>> {
    keep_named(pieces(p, '/'))
}

/// The parts joined with `/` between them.
pub open spec fn join(parts: Seq<Seq<char>>) -> Seq<char>
    decreases parts.len(),
{
    if parts.len() == 0 {
        Seq::empty()
    } else if parts.len() == 1 {
        parts[0]
    } else {
        join(parts.drop_last()) + seq!['/'] + parts.last()
    }
}

/// The parts one after another.
pub open spec fn concat(parts: Seq<Seq<char>>) -> Seq<char>
    decreases parts.len(),
{
    if parts.len() == 0 {
        Seq::empty()
    } else {
        concat(parts.drop_last()) + parts.last()
    }
}

/// A path in forward-slash form: its segments joined with `/`.
pub open spec fn normalized(p: Seq<char>) -> Seq<char> {
    join(segments(p))
}

/// The views of a sequence of strings.
pub open spec fn views(v: Seq<String>) -> Seq<Seq<char>> {
    v.map_values(|s: String| s@)
}

/// `cgi-bin`, in lower and in upper case.
pub open spec fn cgi_bin_lower() -> Seq<char> {
    seq!['c', 'g', 'i', '-', 'b', 'i', 'n']
}

pub open spec fn cgi_bin_upper() -> Seq<char> {
    seq!['C', 'G', 'I', '-', 'B', 'I', 'N']
}

/// `s` equals `cgi-bin` when ASCII letters are compared without case.
pub open spec fn is_cgi_bin(s: Seq<char>) -> bool {
    s.len() == 7 && forall|k: int|
        0 <= k < 7 ==> #[trigger] s[k] == cgi_bin_lower()[k] || s[k] == cgi_bin_upper()[k]
}

/// Some piece of the path between slashes is `cgi-bin`, in any case.
pub open spec fn has_cgi_bin(p: Seq<char>) -> bool {
    exists|j: int| 0 <= j < pieces(p, '/').len() && #[trigger] is_cgi_bin(pieces(p, '/')[j])
}

/// The path of a request: the root, a slash, and the request without
/// surrounding white space.
pub open spec fn resolved(root: Seq<char>, request: Seq<char>) -> Seq<char> {
    root + seq!['/'] + trimmed(request)
}

/// What comes before the first `?`.
pub open spec fn program_part(s: Seq<char>) -> Seq<char> {
    pieces(s, '?')[0]
}

/// What comes after the first `?`, with any further `?` left out.
pub open spec fn query_part(s: Seq<char>) -> Seq<char> {
    concat(pieces(s, '?').drop_first())
}

pub proof fn lemma_pieces_len(p: Seq<char>, sep: char)
    ensures
        pieces(p, sep).len() >= 1,
        pieces(p, sep).len() <= p.len() + 1,
    decreases p.len(),
{
    if p.len() > 0 {
        lemma_pieces_len(p.drop_last(), sep);
    }
}

/// Splits `s` at each `sep`, as `str::split` does.
pub fn split_on(s: &str, sep: char) -> (r: Vec<String>)
    ensures
        views(r@) == pieces(s@, sep),
{
    let n = s.unicode_len();
    let mut parts: Vec<String> = Vec::new();
    let mut cur = String::new();
    let mut i: usize = 0;
    proof {
        assert(s@.take(0) =~= Seq::<char>::empty());
        assert(views(parts@).push(cur@) =~= pieces(s@.take(0), sep));
    }
    while i < n
        invariant
            n == s@.len(),
            i <= n,
            views(parts@).push(cur@) == pieces(s@.take(i as int), sep),
        decreases n - i,
    {
        let c = s.get_char(i);
        let ghost before = s@.take(i as int);
        proof {
            assert(s@.take(i + 1).drop_last() =~= before);
            lemma_pieces_len(before, sep);
        }
        if c == sep {
            parts.push(cur);
            cur = String::new();
            assert(views(parts@).push(cur@) =~= pieces(s@.take(i + 1), sep));
        } else {
            push_char(&mut cur, c);
            assert(views(parts@).push(cur@) =~= pieces(s@.take(i + 1), sep));
        }
        i = i + 1;
    }
    parts.push(cur);
    assert(s@.take(n as int) =~= s@);
    assert(views(parts@) =~= pieces(s@, sep));
    parts
}

/// Whether a piece is `.`.
pub(crate) fn is_dot(s: &String) -> (r: bool)
    ensures
        r == (s@ == seq!['.']),
{
    let t = s.as_str();
    if t.unicode_len() == 1 {
        let c = t.get_char(0);
        if c == '.' {
            assert(t@ =~= seq!['.']);
            true
        } else {
            false
        }
    } else {
        false
    }
}

/// Whether some piece of the path between slashes is `cgi-bin`, ignoring the
/// case of ASCII letters.
pub fn is_cgi_path(path: &str) -> (r: bool)
    ensures
        r == has_cgi_bin(path@),
{
    let parts = split_on(path, '/');
    let ghost all = views(parts@);
    let lower = "cgi-bin";
    let upper = "CGI-BIN";
    proof {
        reveal_strlit("cgi-bin");
        reveal_strlit("CGI-BIN");
        assert(lower@ =~= cgi_bin_lower());
        assert(upper@ =~= cgi_bin_upper());
    }
    let mut j: usize = 0;
    while j < parts.len()
        invariant
            all == views(parts@),
            all == pieces(path@, '/'),
            j <= parts@.len(),
            lower@ == cgi_bin_lower(),
            upper@ == cgi_bin_upper(),
            forall|k: int| 0 <= k < j ==> !is_cgi_bin(#[trigger] all[k]),
        decreases parts@.len() - j,
    {
        let piece = parts[j].as_str();
        assert(piece@ == all[j as int]);
        if piece.unicode_len() == 7 {
            let mut same = true;
            let mut k: usize = 0;
            while k < 7
                invariant
                    piece@.len() == 7,
                    lower@ == cgi_bin_lower(),
                    upper@ == cgi_bin_upper(),
                    k <= 7,
                    same == forall|m: int|
                        0 <= m < k ==> #[trigger] piece@[m] == cgi_bin_lower()[m] || piece@[m]
                            == cgi_bin_upper()[m],
                decreases 7 - k,
            {
                let c = piece.get_char(k);
                if c != lower.get_char(k) && c != upper.get_char(k) {
                    same = false;
                }
                k = k + 1;
            }
            if same {
                assert(is_cgi_bin(all[j as int]));
                return true;
            }
        }
        j = j + 1;
    }
    false
}

/// The path that a request names: the root, `/`, and the request without
/// surrounding white space.
pub fn resolve(root: &str, request: &str) -> (r: String)
    ensures
        r@ == resolved(root@, request@),
{
    let mut path = String::from_str(root);
    path.append("/");
    path.append(trim(request));
    proof {
        reveal_strlit("/");
    }
    assert(path@ =~= resolved(root@, request@));
    path
}

/// Splits a decoded selector at its first `?`: the part before it, and the
/// rest with any further `?` left out.
pub fn split_query(s: &str) -> (r: (String, String))
    ensures
        r.0@ == program_part(s@),
        r.1@ == query_part(s@),
{
    let parts = split_on(s, '?');
    let ghost all = views(parts@);
    proof {
        lemma_pieces_len(s@, '?');
    }
    let program = parts[0].clone();
    let mut query = String::new();
    let mut j: usize = 1;
    assert(all.drop_first().take(0) =~= Seq::<Seq<char>>::empty());
    while j < parts.len()
        invariant
            all == views(parts@),
            parts@.len() >= 1,
            1 <= j <= parts@.len(),
            query@ == concat(all.drop_first().take(j - 1)),
        decreases parts@.len() - j,
    {
        assert(all.drop_first().take(j as int).drop_last() =~= all.drop_first().take(j - 1));
        query.append(parts[j].as_str());
        j = j + 1;
    }
    assert(all.drop_first().take(j - 1) =~= all.drop_first());
    (program, query)
}

} // verus!
