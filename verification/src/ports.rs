//! The port list that the service dialogs read and write: text such as
//! `80/tcp, 443` turned into (port, protocol) pairs, and pairs shown as text.
use vstd::prelude::*;
use crate::text::{is_ws, trim, trim_start, trim_end, chars_of, string_from, trim_bounds, push_char};

verus! {

/// The pieces of `s` between occurrences of `sep`, as `str::split` yields them:
/// there is always at least one piece, and `k` separators give `k + 1` pieces.
pub open spec fn split_on(s: Seq<char>, sep: char) -> Seq<Seq<char>>
    decreases s.len(),
{
    if s.len() == 0 {
        seq![Seq::<char>::empty()]
    } else {
        let prev = split_on(s.drop_last(), sep);
        if s.last() == sep {
            prev.push(Seq::<char>::empty())
        } else {
            prev.update(prev.len() - 1, prev.last().push(s.last()))
        }
    }
}

/// `s` cut at its first `sep`: the part before it, and the part after it if
/// there is one (as `splitn(2, sep)` yields them).
pub open spec fn split_once(s: Seq<char>, sep: char) -> (Seq<char>, Option<Seq<char>>)
    decreases s.len(),
{
    if s.len() == 0 {
        (s, None)
    } else if s[0] == sep {
        (Seq::<char>::empty(), Some(s.drop_first()))
    } else {
        let rest = split_once(s.drop_first(), sep);
        (seq![s[0]] + rest.0, rest.1)
    }
}

/// The protocol that an entry without one gets.
pub open spec fn default_protocol() -> Seq<char> {
    seq!['t', 'c', 'p']
}

/// What one comma-separated entry gives: the trimmed text before the first `/`
/// is the port, the trimmed text after it the protocol (`tcp` where there is no
/// `/`); an entry whose port is empty gives nothing.
pub open spec fn parse_port_entry(piece: Seq<char>) -> Option<(Seq<char>, Seq<char>)> {
    let s = trim(piece);
    let cut = split_once(s, '/');
    let port = trim(cut.0);
    let proto = match cut.1 {
        Some(r) => trim(r),
        None => default_protocol(),
    };
    if port.len() == 0 {
        None
    } else {
        Some((port, proto))
    }
}

/// The (port, protocol) pairs that a port list text describes, in order.
pub open spec fn port_list(input: Seq<char>) -> Seq<(Seq<char>, Seq<char>)> {
    split_on(input, ',').filter_map(|piece: Seq<char>| parse_port_entry(piece))
}

/// One pair as text: `port/protocol`.
pub open spec fn port_entry_text(p: (Seq<char>, Seq<char>)) -> Seq<char> {
    p.0 + seq!['/'] + p.1
}

/// Pairs as text, joined by `, `.
pub open spec fn port_list_text(ps: Seq<(Seq<char>, Seq<char>)>) -> Seq<char>
    decreases ps.len(),
{
    if ps.len() == 0 {
        Seq::<char>::empty()
    } else if ps.len() == 1 {
        port_entry_text(ps[0])
    } else {
        port_list_text(ps.drop_last()) + seq![',', ' '] + port_entry_text(ps.last())
    }
}

pub proof fn lemma_split_on_nonempty(s: Seq<char>, sep: char)
    ensures
        split_on(s, sep).len() >= 1,
    decreases s.len(),
{
    if s.len() > 0 {
        lemma_split_on_nonempty(s.drop_last(), sep);
    }
}

/// Where `s[i]` is the first `sep`, `split_once` cuts there; where `s` holds
/// no `sep`, it gives `s` whole.
proof fn lemma_split_once_at(s: Seq<char>, sep: char, i: int)
    requires
        0 <= i <= s.len(),
        forall|k: int| 0 <= k < i ==> s[k] != sep,
        i < s.len() ==> s[i] == sep,
    ensures
        i < s.len() ==> split_once(s, sep) == (s.take(i), Some(s.skip(i + 1))),
        i == s.len() ==> split_once(s, sep) == (s, None::<Seq<char>>),
    decreases i,
{
    if i == 0 {
        if s.len() > 0 {
            assert(s.take(0) == Seq::<char>::empty());
            assert(s.skip(1) == s.drop_first());
        }
    } else {
        let t = s.drop_first();
        assert forall|k: int| 0 <= k < i - 1 implies t[k] != sep by {
            assert(t[k] == s[k + 1]);
        }
        lemma_split_once_at(t, sep, i - 1);
        if i < s.len() {
            assert(seq![s[0]] + t.take(i - 1) == s.take(i));
            assert(t.skip(i) == s.skip(i + 1));
        } else {
            assert(seq![s[0]] + t == s);
        }
    }
}

/// Extending the text by a non-separator extends its last piece.
proof fn lemma_split_on_push(s: Seq<char>, sep: char, c: char)
    ensures
        c == sep ==> split_on(s.push(c), sep) == split_on(s, sep).push(Seq::<char>::empty()),
        c != sep ==> split_on(s.push(c), sep) == split_on(s, sep).update(
            split_on(s, sep).len() - 1,
            split_on(s, sep).last().push(c),
        ),
{
    assert(s.push(c).drop_last() == s);
}

/// Index of the first `sep` in `cs[lo..hi]`, or `hi` where there is none.
fn find_char(cs: &Vec<char>, lo: usize, hi: usize, sep: char) -> (j: usize)
    requires
        lo <= hi <= cs@.len(),
    ensures
        lo <= j <= hi,
        forall|k: int| lo <= k < j ==> cs@[k] != sep,
        j < hi ==> cs@[j as int] == sep,
{
    let mut j = lo;
    while j < hi && cs[j] != sep
        invariant
            lo <= j <= hi <= cs@.len(),
            forall|k: int| lo <= k < j ==> cs@[k] != sep,
        decreases hi - j,
    {
        j = j + 1;
    }
    j
}

/// The entry `cs[lo..hi]` read as a (port, protocol) pair.
fn parse_entry_at(cs: &Vec<char>, lo: usize, hi: usize) -> (r: Option<(String, String)>)
    requires
        lo <= hi <= cs@.len(),
    ensures
        r.deep_view() == parse_port_entry(cs@.subrange(lo as int, hi as int)),
{
    let ghost piece = cs@.subrange(lo as int, hi as int);
    let (a, b) = trim_bounds(cs, lo, hi);
    let ghost s = cs@.subrange(a as int, b as int);
    assert(s == trim(piece));
    let j = find_char(cs, a, b, '/');
    proof {
        assert forall|k: int| 0 <= k < j - a implies s[k] != '/' by {
            assert(s[k] == cs@[a + k]);
        }
        if j < b {
            assert(s[j - a] == cs@[j as int]);
        }
        lemma_split_once_at(s, '/', j - a);
        assert(s.take(j - a) == cs@.subrange(a as int, j as int));
        if j < b {
            assert(s.skip(j - a + 1) == cs@.subrange(j + 1, b as int));
        }
    }
    let (pa, pb) = trim_bounds(cs, a, j);
    if pa == pb {
        assert(trim(split_once(s, '/').0).len() == 0);
        return None;
    }
    let port = string_from(cs, pa, pb);
    let proto = if j < b {
        let (qa, qb) = trim_bounds(cs, j + 1, b);
        string_from(cs, qa, qb)
    } else {
        let mut t = String::new();
        t.append("tcp");
        proof {
            reveal_strlit("tcp");
        }
        assert(t@ == default_protocol());
        t
    };
    Some((port, proto))
}

/// Reads a port list as the service dialogs take it: entries separated by
/// commas, each `port` or `port/protocol`, white space around the parts
/// ignored, entries with an empty port dropped.
pub fn parse_ports(input: &str) -> (r: Vec<(String, String)>)
    ensures
        r.deep_view() == port_list(input@),
{
    let cs = chars_of(input);
    let n = cs.len();
    let mut out: Vec<(String, String)> = Vec::new();
    let mut start: usize = 0;
    let mut i: usize = 0;
    let ghost f = |piece: Seq<char>| parse_port_entry(piece);
    proof {
        assert(cs@.take(0) == Seq::<char>::empty());
    }
    while i < n
        invariant
            n == cs@.len(),
            f == (|piece: Seq<char>| parse_port_entry(piece)),
            start <= i <= n,
            split_on(cs@.take(i as int), ',').last() == cs@.subrange(start as int, i as int),
            split_on(cs@.take(i as int), ',').len() >= 1,
            out.deep_view() == split_on(cs@.take(i as int), ',').drop_last().filter_map(f),
        decreases n - i,
    {
        let ghost before = split_on(cs@.take(i as int), ',');
        proof {
            assert(cs@.take(i + 1) == cs@.take(i as int).push(cs@[i as int]));
            lemma_split_on_push(cs@.take(i as int), ',', cs@[i as int]);
        }
        if cs[i] == ',' {
            let e = parse_entry_at(&cs, start, i);
            let ghost after = before.push(Seq::<char>::empty());
            proof {
                assert(after.drop_last() == before);
                assert(before == before.drop_last().push(before.last()));
            }
            proof {
                assert(before.last() == cs@.subrange(start as int, i as int));
                assert(e.deep_view() == parse_port_entry(before.last()));
                assert(f(before.last()) == e.deep_view());
                assert(before.len() > 0);
            }
            match e {
                Some(p) => {
                    out.push(p);
                    proof {
                        assert(before.filter_map(f) == before.drop_last().filter_map(f) + seq![p.deep_view()]);
                        assert(out.deep_view() == before.drop_last().filter_map(f).push(p.deep_view()));
                    }
                }
                None => {
                    proof {
                        assert(before.filter_map(f) == before.drop_last().filter_map(f));
                    }
                }
            }
            start = i + 1;
            proof {
                assert(after.last() == cs@.subrange(start as int, start as int));
            }
        } else {
            let ghost after = before.update(before.len() - 1, before.last().push(cs@[i as int]));
            proof {
                assert(after.drop_last() == before.drop_last());
                assert(after.last() == cs@.subrange(start as int, i + 1));
            }
        }
        i = i + 1;
    }
    let ghost pieces = split_on(cs@.take(n as int), ',');
    proof {
        assert(cs@.take(n as int) == cs@);
        assert(pieces == pieces.drop_last().push(pieces.last()));
    }
    let e = parse_entry_at(&cs, start, n);
    proof {
        assert(f(pieces.last()) == e.deep_view());
    }
    match e {
        Some(p) => {
            out.push(p);
            proof {
                assert(pieces.filter_map(f) == pieces.drop_last().filter_map(f) + seq![p.deep_view()]);
            }
        }
        None => {
            proof {
                assert(pieces.filter_map(f) == pieces.drop_last().filter_map(f));
            }
        }
    }
    out
}


/// Shows port pairs as the edit dialog prefills them: `port/protocol`
/// entries joined by `, `.
pub fn format_ports(ports: &Vec<(String, String)>) -> (r: String)
    ensures
        r@ == port_list_text(ports.deep_view()),
{
    let mut r = String::new();
    let n = ports.len();
    let mut i: usize = 0;
    while i < n
        invariant
            n == ports@.len(),
            i <= n,
            r@ == port_list_text(ports.deep_view().take(i as int)),
        decreases n - i,
    {
        let ghost ps = ports.deep_view();
        proof {
            assert(ps.take(i + 1).drop_last() == ps.take(i as int));
            assert(ps.take(i + 1).last() == ps[i as int]);
        }
        if i > 0 {
            push_char(&mut r, ',');
            push_char(&mut r, ' ');
        }
        r.append(ports[i].0.as_str());
        push_char(&mut r, '/');
        r.append(ports[i].1.as_str());
        proof {
            if i == 0 {
                assert(r@ == Seq::<char>::empty() + ps[0].0 + seq!['/'] + ps[0].1);
            }
        }
        i = i + 1;
    }
    proof {
        assert(ports.deep_view().take(n as int) == ports.deep_view());
    }
    r
}

/// A pair that the text form carries unchanged: a non-empty port without
/// `/` or `,`, a protocol without `,`, neither with white space at its ends.
pub open spec fn plain_port_entry(p: (Seq<char>, Seq<char>)) -> bool {
    &&& p.0.len() > 0
    &&& trim(p.0) == p.0
    &&& trim(p.1) == p.1
    &&& !p.0.contains('/')
    &&& !p.0.contains(',')
    &&& !p.1.contains(',')
}

proof fn lemma_trim_start_suffix(s: Seq<char>)
    ensures
        trim_start(s).len() <= s.len(),
        trim_start(s) == s.skip(s.len() - trim_start(s).len()),
        s.len() > 0 && is_ws(s[0]) ==> trim_start(s).len() < s.len(),
        trim_start(s).len() > 0 ==> !is_ws(trim_start(s)[0]),
    decreases s.len(),
{
    if s.len() > 0 && is_ws(s[0]) {
        lemma_trim_start_suffix(s.drop_first());
        assert(s.drop_first().skip(s.drop_first().len() - trim_start(s.drop_first()).len())
            == s.skip(s.len() - trim_start(s.drop_first()).len()));
    } else {
        assert(s.skip(0) == s);
    }
}

proof fn lemma_trim_end_prefix(s: Seq<char>)
    ensures
        trim_end(s).len() <= s.len(),
        trim_end(s) == s.take(trim_end(s).len() as int),
        s.len() > 0 && is_ws(s.last()) ==> trim_end(s).len() < s.len(),
        trim_end(s).len() > 0 ==> !is_ws(trim_end(s).last()),
    decreases s.len(),
{
    if s.len() > 0 && is_ws(s.last()) {
        lemma_trim_end_prefix(s.drop_last());
        assert(s.drop_last().take(trim_end(s.drop_last()).len() as int)
            == s.take(trim_end(s.drop_last()).len() as int));
    } else {
        assert(s.take(s.len() as int) == s);
    }
}

/// A text equal to its own trim has no white space at its ends.
proof fn lemma_trimmed_ends(s: Seq<char>)
    requires
        trim(s) == s,
        s.len() > 0,
    ensures
        !is_ws(s[0]),
        !is_ws(s.last()),
{
    let t = trim_start(s);
    lemma_trim_start_suffix(s);
    lemma_trim_end_prefix(t);
    assert(t.len() == s.len());
    assert(s.skip(0) == s);
    assert(t == s);
    assert(trim_end(s) == s);
}

/// A text with no white space at either end is its own trim.
proof fn lemma_trim_fixed(s: Seq<char>)
    requires
        s.len() > 0,
        !is_ws(s[0]),
        !is_ws(s.last()),
    ensures
        trim(s) == s,
        trim(seq![' '] + s) == s,
{
    assert(trim_start(s) == s);
    assert(trim_end(s) == s);
    let t = seq![' '] + s;
    assert(is_ws(t[0]));
    assert(t.drop_first() == s);
    assert(trim_start(t) == trim_start(s));
}

/// A text without the separator is a single piece.
proof fn lemma_split_on_no_sep(s: Seq<char>, sep: char)
    requires
        !s.contains(sep),
    ensures
        split_on(s, sep) == seq![s],
    decreases s.len(),
{
    if s.len() > 0 {
        let d = s.drop_last();
        assert(!d.contains(sep)) by {
            if d.contains(sep) {
                let k = choose|k: int| 0 <= k < d.len() && d[k] == sep;
                assert(s[k] == sep);
            }
        }
        lemma_split_on_no_sep(d, sep);
        assert(s.last() != sep) by {
            assert(s[s.len() - 1] == s.last());
        }
        assert(d.push(s.last()) == s);
        assert(seq![d].update(0, d.push(s.last())) == seq![s]);
    } else {
        assert(s == Seq::<char>::empty());
    }
}

/// Splitting at a separator splits the pieces there.
proof fn lemma_split_on_concat(a: Seq<char>, b: Seq<char>, sep: char)
    ensures
        split_on(a + seq![sep] + b, sep) == split_on(a, sep) + split_on(b, sep),
    decreases b.len(),
{
    if b.len() == 0 {
        let s = a + seq![sep];
        assert(s.drop_last() == a);
        assert(a + seq![sep] + b == s);
    } else {
        let bd = b.drop_last();
        lemma_split_on_concat(a, bd, sep);
        let s = a + seq![sep] + b;
        assert(s.drop_last() == a + seq![sep] + bd);
        assert(s.last() == b.last());
        lemma_split_on_nonempty(bd, sep);
        lemma_split_on_nonempty(a, sep);
        let pa = split_on(a, sep);
        let pb = split_on(bd, sep);
        if b.last() != sep {
            assert((pa + pb).update((pa + pb).len() - 1, (pa + pb).last().push(b.last()))
                == pa + pb.update(pb.len() - 1, pb.last().push(b.last())));
        } else {
            assert((pa + pb).push(Seq::<char>::empty()) == pa + pb.push(Seq::<char>::empty()));
        }
    }
}

/// The entry text of a plain pair reads back as that pair, with or without
/// the space that follows a comma.
proof fn lemma_entry_round_trip(p: (Seq<char>, Seq<char>))
    requires
        plain_port_entry(p),
    ensures
        parse_port_entry(port_entry_text(p)) == Some(p),
        parse_port_entry(seq![' '] + port_entry_text(p)) == Some(p),
        !port_entry_text(p).contains(','),
{
    let e = port_entry_text(p);
    lemma_trimmed_ends(p.0);
    assert(e[0] == p.0[0]);
    if p.1.len() > 0 {
        lemma_trimmed_ends(p.1);
        assert(e.last() == p.1.last());
    } else {
        assert(e.last() == '/');
    }
    lemma_trim_fixed(e);
    assert forall|k: int| 0 <= k < p.0.len() implies e[k] != '/' by {
        assert(e[k] == p.0[k]);
        if p.0[k] == '/' {
            assert(p.0.contains('/'));
        }
    }
    assert(e[p.0.len() as int] == '/');
    lemma_split_once_at(e, '/', p.0.len() as int);
    assert(e.take(p.0.len() as int) == p.0);
    assert(e.skip(p.0.len() as int + 1) == p.1);
    assert(!e.contains(',')) by {
        if e.contains(',') {
            let k = choose|k: int| 0 <= k < e.len() && e[k] == ',';
            if k < p.0.len() {
                assert(p.0[k] == ',');
                assert(p.0.contains(','));
            } else if k > p.0.len() {
                assert(p.1[k - p.0.len() - 1] == ',');
                assert(p.1.contains(','));
            }
        }
    }
}

/// The pieces of a port list text are its entry texts.
proof fn lemma_text_pieces(ps: Seq<(Seq<char>, Seq<char>)>)
    requires
        ps.len() >= 2,
        forall|i: int| 0 <= i < ps.len() ==> plain_port_entry(#[trigger] ps[i]),
    ensures
        split_on(port_list_text(ps), ',') == split_on(port_list_text(ps.drop_last()), ',').push(
            seq![' '] + port_entry_text(ps.last()),
        ),
{
    let a = port_list_text(ps.drop_last());
    let e = port_entry_text(ps.last());
    assert(plain_port_entry(ps[ps.len() - 1]));
    lemma_entry_round_trip(ps.last());
    assert(port_list_text(ps) == a + seq![','] + (seq![' '] + e));
    lemma_split_on_concat(a, seq![' '] + e, ',');
    assert(!(seq![' '] + e).contains(',')) by {
        if (seq![' '] + e).contains(',') {
            let k = choose|k: int| 0 <= k < (seq![' '] + e).len() && (seq![' '] + e)[k] == ',';
            assert(e[k - 1] == ',');
            assert(e.contains(','));
        }
    }
    lemma_split_on_no_sep(seq![' '] + e, ',');
}

/// Showing port pairs as text and reading the text back gives the same pairs,
/// whenever each pair is one that the text can carry (`plain_port_entry`):
/// the edit dialog saves unchanged ports when its port field is left alone.
pub proof fn law_port_list_round_trip(ps: Seq<(Seq<char>, Seq<char>)>)
    requires
        forall|i: int| 0 <= i < ps.len() ==> plain_port_entry(#[trigger] ps[i]),
    ensures
        port_list(port_list_text(ps)) == ps,
    decreases ps.len(),
{
    let f = |piece: Seq<char>| parse_port_entry(piece);
    if ps.len() == 0 {
        assert(split_on(Seq::<char>::empty(), ',') == seq![Seq::<char>::empty()]);
        assert(trim_start(Seq::<char>::empty()) == Seq::<char>::empty());
        assert(trim_end(Seq::<char>::empty()) == Seq::<char>::empty());
        assert(parse_port_entry(Seq::<char>::empty()) == None::<(Seq<char>, Seq<char>)>);
        assert(seq![Seq::<char>::empty()].drop_last() == Seq::<Seq<char>>::empty());
        assert(Seq::<Seq<char>>::empty().filter_map(f) == Seq::<(Seq<char>, Seq<char>)>::empty());
        assert(seq![Seq::<char>::empty()].filter_map(f) == Seq::<(Seq<char>, Seq<char>)>::empty());
        assert(port_list_text(ps) == Seq::<char>::empty());
    } else if ps.len() == 1 {
        assert(plain_port_entry(ps[0]));
        lemma_entry_round_trip(ps[0]);
        lemma_split_on_no_sep(port_entry_text(ps[0]), ',');
        let pieces = seq![port_entry_text(ps[0])];
        assert(pieces.drop_last() == Seq::<Seq<char>>::empty());
        assert(Seq::<Seq<char>>::empty().filter_map(f) == Seq::<(Seq<char>, Seq<char>)>::empty());
        assert(f(pieces.last()) == Some(ps[0]));
        assert(pieces.filter_map(f) == Seq::<(Seq<char>, Seq<char>)>::empty() + seq![ps[0]]);
        assert(pieces.filter_map(f) == seq![ps[0]]);
        assert(seq![ps[0]] == ps);
    } else {
        let d = ps.drop_last();
        assert forall|i: int| 0 <= i < d.len() implies plain_port_entry(#[trigger] d[i]) by {
            assert(d[i] == ps[i]);
        }
        law_port_list_round_trip(d);
        lemma_text_pieces(ps);
        assert(plain_port_entry(ps[ps.len() - 1]));
        lemma_entry_round_trip(ps.last());
        let x = split_on(port_list_text(d), ',');
        let y = seq![' '] + port_entry_text(ps.last());
        assert(x.push(y).drop_last() == x);
        assert(x.push(y).last() == y);
        assert(x.push(y).filter_map(f) == x.filter_map(f) + seq![ps.last()]);
        assert(d + seq![ps.last()] == ps);
    }
}


/// The trim of a text is a contiguous part of it.
proof fn lemma_trim_part(x: Seq<char>) -> (ab: (int, int))
    ensures
        0 <= ab.0 <= ab.1 <= x.len(),
        trim(x) == x.subrange(ab.0, ab.1),
{
    let t = trim_start(x);
    lemma_trim_start_suffix(x);
    lemma_trim_end_prefix(t);
    let k = x.len() - t.len();
    let m = trim_end(t).len() as int;
    assert(t.take(m) == x.subrange(k, k + m));
    (k, k + m)
}

/// Trimming twice is trimming once.
proof fn lemma_trim_idempotent(x: Seq<char>)
    ensures
        trim(trim(x)) == trim(x),
{
    let t = trim_start(x);
    lemma_trim_start_suffix(x);
    lemma_trim_end_prefix(t);
    let y = trim(x);
    if y.len() > 0 {
        assert(y == t.take(y.len() as int));
        assert(t.len() > 0);
        assert(y[0] == t[0]);
        lemma_trim_fixed(y);
    } else {
        assert(y == Seq::<char>::empty());
        assert(trim_start(y) == y);
        assert(trim_end(y) == y);
    }
}

/// A part of a text without `c` is without `c`.
proof fn lemma_part_lacks(x: Seq<char>, a: int, b: int, c: char)
    requires
        0 <= a <= b <= x.len(),
        !x.contains(c),
    ensures
        !x.subrange(a, b).contains(c),
{
    if x.subrange(a, b).contains(c) {
        let k = choose|k: int| 0 <= k < x.subrange(a, b).len() && x.subrange(a, b)[k] == c;
        assert(x[a + k] == c);
        assert(x.contains(c));
    }
}

/// The trim of a text without `c` is without `c`.
proof fn lemma_trim_lacks(x: Seq<char>, c: char)
    requires
        !x.contains(c),
    ensures
        !trim(x).contains(c),
{
    let ab = lemma_trim_part(x);
    lemma_part_lacks(x, ab.0, ab.1, c);
}

/// The parts of `split_once` lack what the text lacks, the first part lacks
/// the separator, and there is no second part exactly when the text lacks
/// the separator.
proof fn lemma_split_once_parts(s: Seq<char>, sep: char, d: char)
    ensures
        !split_once(s, sep).0.contains(sep),
        (split_once(s, sep).1 is None) == !s.contains(sep),
        !s.contains(d) ==> !split_once(s, sep).0.contains(d),
        !s.contains(d) ==> (split_once(s, sep).1 matches Some(r) ==> !r.contains(d)),
    decreases s.len(),
{
    if s.len() == 0 {
        assert(!s.contains(sep));
    } else if s[0] == sep {
        assert(s.contains(sep));
        if !s.contains(d) {
            lemma_part_lacks(s, 1, s.len() as int, d);
            assert(s.subrange(1, s.len() as int) == s.drop_first());
        }
    } else {
        let t = s.drop_first();
        lemma_split_once_parts(t, sep, d);
        let rest = split_once(t, sep);
        let head = seq![s[0]] + rest.0;
        assert(!head.contains(sep)) by {
            if head.contains(sep) {
                let k = choose|k: int| 0 <= k < head.len() && head[k] == sep;
                assert(k > 0);
                assert(rest.0[k - 1] == sep);
            }
        }
        assert(s.contains(sep) == t.contains(sep)) by {
            if s.contains(sep) {
                let k = choose|k: int| 0 <= k < s.len() && s[k] == sep;
                assert(t[k - 1] == sep);
            }
            if t.contains(sep) {
                let k = choose|k: int| 0 <= k < t.len() && t[k] == sep;
                assert(s[k + 1] == sep);
            }
        }
        if !s.contains(d) {
            assert(!t.contains(d)) by {
                if t.contains(d) {
                    let k = choose|k: int| 0 <= k < t.len() && t[k] == d;
                    assert(s[k + 1] == d);
                }
            }
            assert(!head.contains(d)) by {
                if head.contains(d) {
                    let k = choose|k: int| 0 <= k < head.len() && head[k] == d;
                    if k == 0 {
                        assert(s[0] == d);
                    } else {
                        assert(rest.0[k - 1] == d);
                    }
                }
            }
        }
    }
}

/// No piece of a split holds the separator.
proof fn lemma_split_on_pieces_lack_sep(s: Seq<char>, sep: char)
    ensures
        forall|i: int| 0 <= i < split_on(s, sep).len() ==> !(#[trigger] split_on(s, sep)[i]).contains(sep),
    decreases s.len(),
{
    if s.len() > 0 {
        lemma_split_on_pieces_lack_sep(s.drop_last(), sep);
        lemma_split_on_nonempty(s.drop_last(), sep);
        let prev = split_on(s.drop_last(), sep);
        let cur = split_on(s, sep);
        if s.last() != sep {
            let ext = prev.last().push(s.last());
            assert(!ext.contains(sep)) by {
                if ext.contains(sep) {
                    let k = choose|k: int| 0 <= k < ext.len() && ext[k] == sep;
                    if k < prev.last().len() {
                        assert(prev[prev.len() - 1][k] == sep);
                        assert(prev[prev.len() - 1].contains(sep));
                    }
                }
            }
            assert forall|i: int| 0 <= i < cur.len() implies !(#[trigger] cur[i]).contains(sep) by {
                if i < prev.len() - 1 {
                    assert(cur[i] == prev[i]);
                }
            }
        } else {
            assert forall|i: int| 0 <= i < cur.len() implies !(#[trigger] cur[i]).contains(sep) by {
                if i < prev.len() {
                    assert(cur[i] == prev[i]);
                } else {
                    assert(cur[i] == Seq::<char>::empty());
                }
            }
        }
    }
}

/// What an entry without a comma gives is a pair that the text form carries.
proof fn lemma_entry_plain(piece: Seq<char>)
    requires
        !piece.contains(','),
        parse_port_entry(piece) is Some,
    ensures
        plain_port_entry(parse_port_entry(piece)->0),
{
    let s = trim(piece);
    lemma_trim_lacks(piece, ',');
    let cut = split_once(s, '/');
    lemma_split_once_parts(s, '/', ',');
    let port = trim(cut.0);
    lemma_trim_lacks(cut.0, ',');
    lemma_trim_lacks(cut.0, '/');
    lemma_trim_idempotent(cut.0);
    match cut.1 {
        Some(r) => {
            lemma_trim_lacks(r, ',');
            lemma_trim_idempotent(r);
        },
        None => {
            let tcp = default_protocol();
            assert(tcp[0] == 't' && tcp.last() == 'p');
            lemma_trim_fixed(tcp);
            assert(!tcp.contains(',')) by {
                if tcp.contains(',') {
                    let k = choose|k: int| 0 <= k < tcp.len() && tcp[k] == ',';
                    assert(tcp[k] == 't' || tcp[k] == 'c' || tcp[k] == 'p');
                }
            }
        },
    }
}

/// Every pair that a port list gives has a non-empty port without `/` or
/// `,`, a protocol without `,`, and neither with white space at its ends.
pub proof fn law_port_list_entries_plain(input: Seq<char>)
    ensures
        forall|i: int| 0 <= i < port_list(input).len() ==> plain_port_entry(#[trigger] port_list(input)[i]),
{
    let f = |piece: Seq<char>| parse_port_entry(piece);
    let pieces = split_on(input, ',');
    lemma_split_on_pieces_lack_sep(input, ',');
    assert forall|i: int| 0 <= i < port_list(input).len() implies plain_port_entry(#[trigger] port_list(input)[i]) by {
        let elt = port_list(input)[i];
        assert(pieces.filter_map(f).contains(elt));
        pieces.lemma_filter_map_contains(f, elt);
        let t = choose|t: Seq<char>| #[trigger] pieces.contains(t) && f(t) == Some(elt);
        let k = choose|k: int| 0 <= k < pieces.len() && pieces[k] == t;
        assert(!pieces[k].contains(','));
        lemma_entry_plain(t);
    }
}

/// An entry without `/` gives the protocol `tcp`.
pub proof fn law_entry_without_slash_is_tcp(piece: Seq<char>)
    requires
        !piece.contains('/'),
    ensures
        parse_port_entry(piece) matches Some(p) ==> p.1 == default_protocol(),
{
    lemma_trim_lacks(piece, '/');
    lemma_split_once_parts(trim(piece), '/', '/');
}

/// Reading a port list, writing the pairs back as text and reading that
/// again gives the pairs of the first reading: the text form of what was
/// read is already in its plain shape.
pub proof fn law_port_list_normalizes(input: Seq<char>)
    ensures
        port_list(port_list_text(port_list(input))) == port_list(input),
{
    law_port_list_entries_plain(input);
    law_port_list_round_trip(port_list(input));
}

} // verus!
