//! What holds of selectors across the functions that make and read them.
use vstd::prelude::*;
use crate::menu::{child_selector, Entry, item_for, Menu};
use crate::config::Config;
use crate::path::{is_named, join, keep_named, pieces, resolved, segments};
use crate::text::{decodes, is_white_space, trim_end, trim_start, trimmed};
use crate::handler::{
    end_bytes, gophermap_path, not_found_text, stepped, Action, Event, Exchange, Phase,
};
use crate::log::{missing_text, Category};
use crate::path::has_cgi_bin;
use vstd::utf8::encode_utf8;

verus! {

/// A name as a directory listing gives it: not empty, not `.`, without `/`.
pub open spec fn is_entry_name(n: Seq<char>) -> bool {
    is_named(n) && !n.contains('/')
}

/// Splitting at a separator splits each side apart.
pub proof fn lemma_pieces_concat(a: Seq<char>, b: Seq<char>, sep: char)
    ensures
        pieces(a + seq![sep] + b, sep) == pieces(a, sep) + pieces(b, sep),
    decreases b.len(),
{
    let s = a + seq![sep] + b;
    if b.len() == 0 {
        assert(s.drop_last() =~= a);
        assert(pieces(b, sep) =~= seq![Seq::<char>::empty()]);
        assert(pieces(s, sep) =~= pieces(a, sep) + pieces(b, sep));
    } else {
        let b1 = b.drop_last();
        assert(s.drop_last() =~= a + seq![sep] + b1);
        lemma_pieces_concat(a, b1, sep);
        crate::path::lemma_pieces_len(b1, sep);
        crate::path::lemma_pieces_len(a, sep);
        assert(s.last() == b.last());
        assert(pieces(s, sep) =~= pieces(a, sep) + pieces(b, sep));
    }
}

/// A text without the separator is a single piece.
pub proof fn lemma_pieces_single(b: Seq<char>, sep: char)
    requires
        !b.contains(sep),
    ensures
        pieces(b, sep) == seq![b],
    decreases b.len(),
{
    if b.len() > 0 {
        let b1 = b.drop_last();
        assert forall|i: int| 0 <= i < b1.len() implies b1[i] != sep by {
            assert(b[i] == b1[i]);
        }
        lemma_pieces_single(b1, sep);
        assert(b.last() == b[b.len() - 1]);
        assert(b1.push(b.last()) =~= b);
        assert(pieces(b, sep) =~= seq![b]);
    } else {
        assert(b =~= Seq::<char>::empty());
    }
}

/// No piece holds the separator.
pub proof fn lemma_pieces_free(p: Seq<char>, sep: char)
    ensures
        forall|j: int| 0 <= j < pieces(p, sep).len() ==> !(#[trigger] pieces(p, sep)[j]).contains(sep),
    decreases p.len(),
{
    if p.len() > 0 {
        let p1 = p.drop_last();
        lemma_pieces_free(p1, sep);
        crate::path::lemma_pieces_len(p1, sep);
        let q = pieces(p1, sep);
        if p.last() != sep {
            let l = q.last().push(p.last());
            assert forall|i: int| 0 <= i < l.len() implies l[i] != sep by {
                if i < q.last().len() {
                    assert(l[i] == q.last()[i]);
                    assert(q[q.len() - 1] == q.last());
                }
            }
            assert forall|j: int| 0 <= j < pieces(p, sep).len() implies !(
            #[trigger] pieces(p, sep)[j]).contains(sep) by {
                if j < q.len() - 1 {
                    assert(pieces(p, sep)[j] == q[j]);
                }
            }
        } else {
            assert forall|j: int| 0 <= j < pieces(p, sep).len() implies !(
            #[trigger] pieces(p, sep)[j]).contains(sep) by {
                if j < q.len() {
                    assert(pieces(p, sep)[j] == q[j]);
                } else {
                    assert(pieces(p, sep)[j] =~= Seq::<char>::empty());
                }
            }
        }
    }
}

/// Keeping the named pieces of two sequences one after the other.
pub proof fn lemma_keep_named_concat(x: Seq<Seq<char>>, y: Seq<Seq<char>>)
    ensures
        keep_named(x + y) == keep_named(x) + keep_named(y),
    decreases y.len(),
{
    if y.len() == 0 {
        assert(x + y =~= x);
        assert(keep_named(x) + keep_named(y) =~= keep_named(x));
    } else {
        assert((x + y).drop_last() =~= x + y.drop_last());
        assert((x + y).last() == y.last());
        lemma_keep_named_concat(x, y.drop_last());
        if is_named(y.last()) {
            assert(keep_named(x + y) =~= keep_named(x) + keep_named(y));
        } else {
            assert(keep_named(x + y) =~= keep_named(x) + keep_named(y));
        }
    }
}

/// What is kept is named and, where nothing held a `/`, holds none.
pub proof fn lemma_keep_named_elements(s: Seq<Seq<char>>)
    requires
        forall|j: int| 0 <= j < s.len() ==> !(#[trigger] s[j]).contains('/'),
    ensures
        forall|i: int|
            0 <= i < keep_named(s).len() ==> is_entry_name(#[trigger] keep_named(s)[i]),
    decreases s.len(),
{
    if s.len() > 0 {
        let s1 = s.drop_last();
        assert forall|j: int| 0 <= j < s1.len() implies !(#[trigger] s1[j]).contains('/') by {
            assert(s1[j] == s[j]);
        }
        lemma_keep_named_elements(s1);
        assert(s.last() == s[s.len() - 1]);
        let k = keep_named(s);
        let k1 = keep_named(s1);
        assert forall|i: int| 0 <= i < k.len() implies is_entry_name(#[trigger] k[i]) by {
            if is_named(s.last()) {
                if i < k1.len() {
                    assert(k[i] == k1[i]);
                }
            } else {
                assert(k[i] == k1[i]);
            }
        }
    }
}

/// The segments of a path that continues past a slash.
pub proof fn lemma_segments_concat(a: Seq<char>, b: Seq<char>)
    ensures
        segments(a + seq!['/'] + b) == segments(a) + segments(b),
{
    lemma_pieces_concat(a, b, '/');
    lemma_keep_named_concat(pieces(a, '/'), pieces(b, '/'));
}

/// A name is its own only segment.
pub proof fn lemma_segments_name(n: Seq<char>)
    requires
        is_entry_name(n),
    ensures
        segments(n) == seq![n],
{
    lemma_pieces_single(n, '/');
    let e = Seq::<Seq<char>>::empty();
    assert(seq![n].drop_last() =~= e);
    assert(keep_named(seq![n]) =~= keep_named(e).push(n));
}

/// An empty path has no segments.
pub proof fn lemma_segments_empty()
    ensures
        segments(Seq::<char>::empty()).len() == 0,
{
    let z = Seq::<char>::empty();
    assert(pieces(z, '/') =~= seq![z]);
    assert(!is_named(z));
    assert(seq![z].drop_last() =~= Seq::<Seq<char>>::empty());
    assert(keep_named(seq![z]) == keep_named(Seq::<Seq<char>>::empty()));
}

/// A join of parts starts with the first part's first character.
pub proof fn lemma_join_first(parts: Seq<Seq<char>>)
    requires
        parts.len() > 0,
        parts[0].len() > 0,
    ensures
        join(parts).len() > 0,
        join(parts)[0] == parts[0][0],
    decreases parts.len(),
{
    if parts.len() > 1 {
        let p1 = parts.drop_last();
        assert(p1[0] == parts[0]);
        lemma_join_first(p1);
    }
}

/// Joining names with `/` and taking the segments again gives the names.
pub proof fn lemma_segments_join(parts: Seq<Seq<char>>)
    requires
        forall|i: int| 0 <= i < parts.len() ==> is_entry_name(#[trigger] parts[i]),
    ensures
        segments(join(parts)) == parts,
    decreases parts.len(),
{
    if parts.len() == 0 {
        let z = Seq::<char>::empty();
        assert(join(parts) == z);
        assert(pieces(z, '/') =~= seq![z]);
        assert(!is_named(z));
        assert(seq![z].drop_last() =~= Seq::<Seq<char>>::empty());
        assert(keep_named(seq![z]) == keep_named(Seq::<Seq<char>>::empty()));
        assert(segments(join(parts)) =~= parts);
    } else if parts.len() == 1 {
        assert(is_entry_name(parts[0]));
        lemma_segments_name(parts[0]);
        assert(parts =~= seq![parts[0]]);
    } else {
        let p1 = parts.drop_last();
        assert forall|i: int| 0 <= i < p1.len() implies is_entry_name(#[trigger] p1[i]) by {
            assert(p1[i] == parts[i]);
        }
        lemma_segments_join(p1);
        assert(is_entry_name(parts[parts.len() - 1]));
        lemma_segments_name(parts.last());
        lemma_segments_concat(join(p1), parts.last());
        assert(p1 + seq![parts.last()] =~= parts);
    }
}

/// The segments of a path hold no `/` and are named.
pub proof fn lemma_segments_names(p: Seq<char>)
    ensures
        forall|i: int| 0 <= i < segments(p).len() ==> is_entry_name(#[trigger] segments(p)[i]),
{
    lemma_pieces_free(p, '/');
    lemma_keep_named_elements(pieces(p, '/'));
}

/// A menu's selector for an entry is the path from the root to the entry in
/// forward-slash form: the segments of the request that named the directory,
/// then the entry's name, joined with single `/`.
pub proof fn lemma_child_selector(request: Seq<char>, name: Seq<char>)
    requires
        is_entry_name(name),
    ensures
        child_selector(request, name) == join(segments(trimmed(request)).push(name)),
        segments(child_selector(request, name)) == segments(trimmed(request)).push(name),
{
    let t = trimmed(request);
    lemma_segments_concat(t, name);
    lemma_segments_name(name);
    assert(segments(t) + seq![name] =~= segments(t).push(name));
    lemma_segments_names(t);
    let parts = segments(t).push(name);
    assert forall|i: int| 0 <= i < parts.len() implies is_entry_name(#[trigger] parts[i]) by {
        if i < segments(t).len() {
            assert(parts[i] == segments(t)[i]);
        }
    }
    lemma_segments_join(parts);
}

/// A menu built from a directory listing has one item per entry, and each
/// item's selector is a path relative to the root in forward-slash form: it
/// is its own segments joined with single `/`, each segment named and free of
/// `/`, and it does not start with `/`. For an entry whose name is a file name
/// (not empty, not `.`, without `/`) the segments are the request's segments
/// followed by the name.
pub proof fn law_menu_items(request: Seq<char>, entries: Seq<Entry>, config: Config, menu: Menu)
    requires
        menu.items@.len() == entries.len(),
        forall|k: int|
            0 <= k < entries.len() ==> item_for(request, #[trigger] entries[k], config, menu.items@[k]),
    ensures
        menu.items@.len() == entries.len(),
        forall|k: int|
            0 <= k < entries.len() ==> {
                let sel = (#[trigger] menu.items@[k]).selector@;
                &&& sel == join(segments(sel))
                &&& forall|i: int|
                    0 <= i < segments(sel).len() ==> is_entry_name(#[trigger] segments(sel)[i])
                &&& sel.len() > 0 ==> sel[0] != '/'
            },
        forall|k: int|
            0 <= k < entries.len() && is_entry_name(entries[k].name@) ==> (
            #[trigger] menu.items@[k]).selector@ == join(
                segments(trimmed(request)).push(entries[k].name@),
            ),
{
    assert forall|k: int| 0 <= k < entries.len() implies {
        let sel = (#[trigger] menu.items@[k]).selector@;
        &&& sel == join(segments(sel))
        &&& forall|i: int|
            0 <= i < segments(sel).len() ==> is_entry_name(#[trigger] segments(sel)[i])
        &&& sel.len() > 0 ==> sel[0] != '/'
    } by {
        assert(item_for(request, entries[k], config, menu.items@[k]));
        let p = trimmed(request) + seq!['/'] + entries[k].name@;
        let segs = segments(p);
        lemma_segments_names(p);
        lemma_segments_join(segs);
        let sel = menu.items@[k].selector@;
        assert(sel == join(segs));
        if sel.len() > 0 {
            if segs.len() == 0 {
                assert(join(segs) == Seq::<char>::empty());
            }
            assert(is_entry_name(segs[0]));
            lemma_join_first(segs);
            assert(!segs[0].contains('/'));
            assert(segs[0][0] != '/');
        }
    }
    assert forall|k: int| 0 <= k < entries.len() && is_entry_name(entries[k].name@) implies (
    #[trigger] menu.items@[k]).selector@ == join(
        segments(trimmed(request)).push(entries[k].name@),
    ) by {
        assert(item_for(request, entries[k], config, menu.items@[k]));
        lemma_child_selector(request, entries[k].name@);
    }
}

/// Trimming a text that neither starts nor ends with white space, followed
/// by CR LF, gives the text.
pub proof fn lemma_trim_line(s: Seq<char>)
    requires
        s.len() > 0,
        !is_white_space(s[0]),
        !is_white_space(s.last()),
    ensures
        trimmed(s + seq!['\r', '\n']) == s,
{
    let l = s + seq!['\r', '\n'];
    assert(l[0] == s[0]);
    assert(trim_start(l) == l);
    assert(l.drop_last() =~= s + seq!['\r']);
    assert((s + seq!['\r']).drop_last() =~= s);
    assert(trim_end(l) == trim_end(s + seq!['\r']));
    assert(trim_end(s + seq!['\r']) == trim_end(s));
    assert(trim_end(s) == s);
}

/// A selector that a menu gives for an entry, sent back as the next request
/// (`/`, the selector and CR LF), resolves to a path with the same segments as
/// the entry's own path: the directory's path, `/`, and the entry's name. This
/// holds where the selector does not end with white space, which trimming the
/// request would drop.
pub proof fn law_selector_round_trip(root: Seq<char>, request: Seq<char>, name: Seq<char>)
    requires
        is_entry_name(name),
        !is_white_space(child_selector(request, name).last()),
    ensures
        segments(resolved(root, seq!['/'] + child_selector(request, name) + seq!['\r', '\n']))
            == segments(resolved(root, request) + seq!['/'] + name),
{
    let sel = child_selector(request, name);
    let t = trimmed(request);
    let z = Seq::<char>::empty();
    lemma_child_selector(request, name);
    assert(sel.len() > 0) by {
        if sel.len() == 0 {
            assert(sel =~= z);
            lemma_segments_empty();
        }
    }
    let line = seq!['/'] + sel;
    assert(line[0] == '/');
    assert(line.last() == sel.last());
    lemma_trim_line(line);
    assert(seq!['/'] + sel + seq!['\r', '\n'] =~= line + seq!['\r', '\n']);
    assert(resolved(root, line + seq!['\r', '\n']) =~= root + seq!['/'] + line);
    lemma_segments_concat(root, line);
    assert(line =~= z + seq!['/'] + sel);
    lemma_segments_concat(z, sel);
    lemma_segments_empty();
    assert(segments(line) =~= segments(sel));
    assert(resolved(root, request) + seq!['/'] + name =~= root + seq!['/'] + (t + seq!['/'] + name));
    lemma_segments_concat(root, t + seq!['/'] + name);
    lemma_segments_concat(t, name);
    lemma_segments_name(name);
    assert(segments(t) + seq![name] =~= segments(t).push(name));
}

/// A directory with a `gophermap` file is answered with the file's bytes and
/// the `.` line, whatever else the directory holds: its listing is never
/// asked for.
pub proof fn law_gophermap_answer(
    ex: Exchange,
    config: Config,
    b: Vec<u8>,
    p1: Phase,
    a1: Action,
    p2: Phase,
    a2: Action,
    p3: Phase,
    a3: Action,
)
    requires
        ex.phase == Phase::Directory,
        stepped(ex, config, Event::Answer(true), p1, a1),
        stepped((Exchange { phase: p1, ..ex }), config, Event::Answer(true), p2, a2),
        stepped((Exchange { phase: p2, ..ex }), config, Event::Contents(b), p3, a3),
    ensures
        a1 matches Action::IsFile(p) && p@ == gophermap_path(ex.path@),
        a2 matches Action::Read(p) && p@ == gophermap_path(ex.path@),
        a3 matches Action::Reply(out) && out@ == b@ + end_bytes(),
{
}

/// A path that names a regular file, with no `cgi-bin` segment, is answered
/// with the file's bytes exactly, nothing appended. This holds where the
/// path percent-decodes; where it does not, the exchange ends unanswered.
pub proof fn law_file_answer(
    ex: Exchange,
    config: Config,
    b: Vec<u8>,
    p1: Phase,
    a1: Action,
    p2: Phase,
    a2: Action,
    p3: Phase,
    a3: Action,
)
    requires
        ex.phase == Phase::Directory,
        decodes(ex.path@),
        !has_cgi_bin(ex.path@),
        stepped(ex, config, Event::Answer(false), p1, a1),
        stepped((Exchange { phase: p1, ..ex }), config, Event::Answer(true), p2, a2),
        stepped((Exchange { phase: p2, ..ex }), config, Event::Contents(b), p3, a3),
    ensures
        a2 matches Action::Read(p) && p@ == ex.path@,
        a3 matches Action::Reply(out) && out@ == b@,
{
}

/// A request whose path is neither a directory nor a file is answered with
/// the not-found menu, after its error record. This holds where the path
/// percent-decodes; where it does not, the exchange ends unanswered.
pub proof fn law_missing_answer(
    ex: Exchange,
    config: Config,
    p1: Phase,
    a1: Action,
    p2: Phase,
    a2: Action,
    p3: Phase,
    a3: Action,
)
    requires
        ex.phase == Phase::Directory,
        decodes(ex.path@),
        stepped(ex, config, Event::Answer(false), p1, a1),
        stepped((Exchange { phase: p1, ..ex }), config, Event::Answer(false), p2, a2),
        stepped((Exchange { phase: p2, ..ex }), config, Event::Logged, p3, a3),
    ensures
        a2 matches Action::Log(c, m) && c == Category::Error && m@ == missing_text(
            ex.address@,
            ex.request@,
        ),
        a3 matches Action::Reply(out) && out@ == encode_utf8(not_found_text(ex.request@)),
{
}

} // verus!
