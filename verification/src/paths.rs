//! Paths as text, and what pushing a segment onto one gives, by the rules of
//! `PathBuf::push` on Unix and on Windows.
use vstd::prelude::*;

verus! {

/// The family of operating system whose path rules and fallback
/// locations apply.
#[derive(Clone, Copy, Debug, PartialEq, Eq, Structural)]
pub enum Platform {
    Unix,
    Windows,
    Other,
}

/// The separator that a push inserts on `platform`.
pub open spec fn separator(platform: Platform) -> char {
    if platform == Platform::Windows {
        '\\'
    } else {
        '/'
    }
}

/// Whether `c` separates path components on `platform`.
pub open spec fn is_separator(c: char, platform: Platform) -> bool {
    c == '/' || (platform == Platform::Windows && c == '\\')
}

/// Whether `c` separates components of a Windows path.
pub open spec fn is_win_sep(c: char) -> bool {
    c == '/' || c == '\\'
}

/// Whether `c` is an ASCII letter.
pub open spec fn is_letter(c: char) -> bool {
    ('a' <= c && c <= 'z') || ('A' <= c && c <= 'Z')
}

/// A Windows path that is nothing but a drive, such as `C:`.
pub open spec fn is_bare_drive(base: Seq<char>, platform: Platform) -> bool {
    &&& platform == Platform::Windows
    &&& base.len() == 2
    &&& base[1] == ':'
    &&& is_letter(base[0])
}

/// Whether `c` ends a component that starts in a Windows path; in a verbatim
/// path only `\` does.
pub open spec fn ends_component(c: char, verbatim: bool) -> bool {
    if verbatim {
        c == '\\'
    } else {
        is_win_sep(c)
    }
}

/// Where the component of `s` that starts at `start` ends: at the first
/// separator from `start` on, or at the end of `s`.
pub open spec fn comp_end(s: Seq<char>, start: int, verbatim: bool) -> int
    decreases s.len() - start,
{
    if start < 0 || start >= s.len() {
        s.len() as int
    } else if ends_component(s[start], verbatim) {
        start
    } else {
        comp_end(s, start + 1, verbatim)
    }
}

/// Whether `s` starts with `\\?\`, the verbatim prefix of Windows paths.
pub open spec fn is_verbatim(s: Seq<char>) -> bool {
    s.len() >= 4 && s[0] == '\\' && s[1] == '\\' && s[2] == '?' && s[3] == '\\'
}

/// The length of the Windows prefix of `s`, 0 when it has none: `\\?\UNC\server\share`,
/// `\\?\C:`, `\\?\name`, `\\.\device`, `\\server\share` or `C:`.
pub open spec fn prefix_len(s: Seq<char>) -> int {
    if s.len() >= 2 && s[0] == '\\' && s[1] == '\\' {
        if s.len() >= 4 && s[2] == '?' && s[3] == '\\' {
            if s.len() >= 8 && s[4] == 'U' && s[5] == 'N' && s[6] == 'C' && s[7] == '\\' {
                let e1 = comp_end(s, 8, true);
                if e1 < s.len() {
                    let e2 = comp_end(s, e1 + 1, true);
                    if e2 > e1 + 1 {
                        e2
                    } else {
                        e1
                    }
                } else {
                    e1
                }
            } else {
                let e = comp_end(s, 4, true);
                if e == 6 && is_letter(s[4]) && s[5] == ':' {
                    6
                } else {
                    e
                }
            }
        } else if s.len() >= 4 && s[2] == '.' && s[3] == '\\' {
            comp_end(s, 4, false)
        } else {
            let e1 = comp_end(s, 2, false);
            if e1 > 2 && e1 < s.len() {
                let e2 = comp_end(s, e1 + 1, false);
                if e2 > e1 + 1 {
                    e2
                } else {
                    0
                }
            } else {
                0
            }
        }
    } else if s.len() >= 2 && is_letter(s[0]) && s[1] == ':' {
        2
    } else {
        0
    }
}

/// The pieces of `s` between separators, empty ones included; there is
/// always at least one.
pub open spec fn split_on(s: Seq<char>, verbatim: bool) -> Seq<Seq<char>>
    decreases s.len(),
{
    if s.len() == 0 {
        seq![Seq::empty()]
    } else {
        let init = split_on(s.drop_last(), verbatim);
        if ends_component(s.last(), verbatim) {
            init.push(Seq::empty())
        } else {
            init.update(init.len() - 1, init.last().push(s.last()))
        }
    }
}

/// The non-empty pieces, in order.
pub open spec fn nonempty_pieces(ps: Seq<Seq<char>>) -> Seq<Seq<char>>
    decreases ps.len(),
{
    if ps.len() == 0 {
        Seq::empty()
    } else if ps.last().len() == 0 {
        nonempty_pieces(ps.drop_last())
    } else {
        nonempty_pieces(ps.drop_last()).push(ps.last())
    }
}

/// Whether a component is an ordinary name, neither `.` nor `..`.
pub open spec fn is_normal(c: Seq<char>) -> bool {
    c != seq!['.'] && c != seq!['.', '.']
}

/// The components after one piece of a pushed segment: empty pieces and
/// `.` are dropped, `..` removes a preceding ordinary name, anything else is
/// added.
pub open spec fn apply_piece(cs: Seq<Seq<char>>, piece: Seq<char>) -> Seq<Seq<char>> {
    if piece.len() == 0 || piece == seq!['.'] {
        cs
    } else if piece == seq!['.', '.'] {
        if cs.len() > 0 && is_normal(cs.last()) {
            cs.drop_last()
        } else {
            cs
        }
    } else {
        cs.push(piece)
    }
}

/// The components after all pieces of a pushed segment, in order.
pub open spec fn apply_pieces(cs: Seq<Seq<char>>, ps: Seq<Seq<char>>) -> Seq<Seq<char>>
    decreases ps.len(),
{
    if ps.len() == 0 {
        cs
    } else {
        apply_piece(apply_pieces(cs, ps.drop_last()), ps.last())
    }
}

/// The components joined with `\`.
pub open spec fn join_with(cs: Seq<Seq<char>>) -> Seq<char>
    decreases cs.len(),
{
    if cs.len() == 0 {
        Seq::empty()
    } else if cs.len() == 1 {
        cs[0]
    } else {
        join_with(cs.drop_last()) + seq!['\\'] + cs.last()
    }
}

/// Pushing a non-empty segment without prefix onto a verbatim path: the path
/// is rebuilt from its prefix, a root and its components, with the
/// segment's pieces applied (a rooted segment starts from the root), and
/// every component separated by `\`.
pub open spec fn verbatim_join(base: Seq<char>, seg: Seq<char>) -> Seq<char> {
    let p = prefix_len(base);
    let start = if is_win_sep(seg[0]) {
        Seq::empty()
    } else {
        nonempty_pieces(split_on(base.skip(p), true))
    };
    base.take(p) + seq!['\\'] + join_with(apply_pieces(start, split_on(seg, false)))
}

/// `PathBuf::push` on Windows: a segment with a prefix replaces the path; a
/// verbatim path is rebuilt; a rooted segment keeps only the path's prefix;
/// otherwise a `\` goes between them unless the path is empty, ends in a
/// separator, or is a bare drive.
pub open spec fn win_join(base: Seq<char>, seg: Seq<char>) -> Seq<char> {
    if prefix_len(seg) > 0 {
        seg
    } else if is_verbatim(base) && seg.len() > 0 {
        verbatim_join(base, seg)
    } else if seg.len() > 0 && is_win_sep(seg[0]) {
        base.take(prefix_len(base)) + seg
    } else if base.len() == 0 || is_win_sep(base.last()) || is_bare_drive(base, Platform::Windows) {
        base + seg
    } else {
        base + seq!['\\'] + seg
    }
}

/// `PathBuf::push` on Unix: a segment starting with `/` replaces the path;
/// otherwise a `/` goes between them unless the path is empty or ends in one.
pub open spec fn unix_join(base: Seq<char>, seg: Seq<char>) -> Seq<char> {
    if seg.len() > 0 && seg[0] == '/' {
        seg
    } else if base.len() == 0 || base.last() == '/' {
        base + seg
    } else {
        base + seq!['/'] + seg
    }
}

/// The path `base` with `segment` pushed onto it, on `platform`.
pub open spec fn join_spec(base: Seq<char>, segment: Seq<char>, platform: Platform) -> Seq<char> {
    if platform == Platform::Windows {
        win_join(base, segment)
    } else {
        unix_join(base, segment)
    }
}

/// The path `base` with each of `segments` pushed in turn.
pub open spec fn join_all_spec(base: Seq<char>, segments: Seq<Seq<char>>, platform: Platform) -> Seq<char>
    decreases segments.len(),
{
    if segments.len() == 0 {
        base
    } else {
        join_spec(join_all_spec(base, segments.drop_last(), platform), segments.last(), platform)
    }
}

/// Pushing a list of segments that is made of two lists pushes the first,
/// then the second.
pub proof fn lemma_join_all_concat(
    base: Seq<char>,
    a: Seq<Seq<char>>,
    b: Seq<Seq<char>>,
    platform: Platform,
)
    ensures
        join_all_spec(base, a + b, platform) == join_all_spec(
            join_all_spec(base, a, platform),
            b,
            platform,
        ),
    decreases b.len(),
{
    if b.len() == 0 {
        assert(a + b =~= a);
    } else {
        lemma_join_all_concat(base, a, b.drop_last(), platform);
        assert((a + b).drop_last() =~= a + b.drop_last());
        assert((a + b).last() == b.last());
    }
}

/// Whether `s` ends with `t`.
pub open spec fn ends_with(s: Seq<char>, t: Seq<char>) -> bool {
    t.len() <= s.len() && s.subrange(s.len() - t.len(), s.len() as int) == t
}

/// A segment that is a plain name: at least three characters, no separator,
/// and no drive colon.
pub open spec fn is_plain_name(w: Seq<char>) -> bool {
    &&& w.len() >= 3
    &&& w[1] != ':'
    &&& forall|i: int| 0 <= i < w.len() ==> w[i] != '/' && w[i] != '\\'
}

/// The text of `x` with the plain name `w` appended, with a separator
/// between them unless `x` is empty, ends in one, or is a bare drive.
pub open spec fn append_name(x: Seq<char>, w: Seq<char>, platform: Platform) -> Seq<char> {
    if x.len() == 0 || is_separator(x.last(), platform) || is_bare_drive(x, platform) {
        x + w
    } else {
        x + seq![separator(platform)] + w
    }
}

/// The components of a verbatim path after its prefix.
pub open spec fn verbatim_components(x: Seq<char>) -> Seq<Seq<char>> {
    nonempty_pieces(split_on(x.skip(prefix_len(x)), true))
}

proof fn lemma_comp_end_props(s: Seq<char>, start: int, verbatim: bool)
    requires
        0 <= start <= s.len(),
    ensures
        start <= comp_end(s, start, verbatim) <= s.len(),
        comp_end(s, start, verbatim) == s.len() || ends_component(
            s[comp_end(s, start, verbatim)],
            verbatim,
        ),
    decreases s.len() - start,
{
    if start < s.len() && !ends_component(s[start], verbatim) {
        lemma_comp_end_props(s, start + 1, verbatim);
    }
}

proof fn lemma_verbatim_prefix_boundary(s: Seq<char>)
    requires
        is_verbatim(s),
    ensures
        4 <= prefix_len(s) <= s.len(),
        prefix_len(s) == s.len() || s[prefix_len(s)] == '\\',
{
    lemma_comp_end_props(s, 4, true);
    if s.len() >= 8 && s[4] == 'U' && s[5] == 'N' && s[6] == 'C' && s[7] == '\\' {
        lemma_comp_end_props(s, 8, true);
        let e1 = comp_end(s, 8, true);
        if e1 < s.len() {
            lemma_comp_end_props(s, e1 + 1, true);
        }
    }
}

proof fn lemma_split_len(s: Seq<char>, verbatim: bool)
    ensures
        split_on(s, verbatim).len() > 0,
    decreases s.len(),
{
    if s.len() > 0 {
        lemma_split_len(s.drop_last(), verbatim);
    }
}

proof fn lemma_split_no_sep(w: Seq<char>, verbatim: bool)
    requires
        forall|i: int| 0 <= i < w.len() ==> !ends_component(#[trigger] w[i], verbatim),
    ensures
        split_on(w, verbatim) == seq![w],
    decreases w.len(),
{
    if w.len() > 0 {
        lemma_split_no_sep(w.drop_last(), verbatim);
        assert(!ends_component(w[w.len() - 1], verbatim));
        assert(w.drop_last().push(w.last()) =~= w);
        assert(seq![w.drop_last()].update(0, w.drop_last().push(w.last())) =~= seq![w]);
    } else {
        assert(w =~= Seq::<char>::empty());
    }
}

proof fn lemma_split_tail(u: Seq<char>, w: Seq<char>)
    requires
        forall|i: int| 0 <= i < w.len() ==> #[trigger] w[i] != '\\',
    ensures
        split_on(u + seq!['\\'] + w, true).len() > 0,
        split_on(u + seq!['\\'] + w, true).last() == w,
    decreases w.len(),
{
    let t = u + seq!['\\'] + w;
    lemma_split_len(t, true);
    if w.len() == 0 {
        assert(t.drop_last() =~= u);
        assert(w =~= Seq::<char>::empty());
    } else {
        lemma_split_tail(u, w.drop_last());
        assert(t.drop_last() =~= u + seq!['\\'] + w.drop_last());
        assert(w[w.len() - 1] != '\\');
        assert(w.drop_last().push(w.last()) =~= w);
    }
}

proof fn lemma_join_with_push(e: Seq<Seq<char>>, w: Seq<char>)
    ensures
        join_with(e.push(w)) == if e.len() == 0 {
            w
        } else {
            join_with(e) + seq!['\\'] + w
        },
{
    assert(e.push(w).drop_last() =~= e);
}

/// Pushing a plain name appends it. On a verbatim Windows path the path is
/// rebuilt from its prefix and components with the name added last.
pub proof fn lemma_push_plain_name(x: Seq<char>, w: Seq<char>, platform: Platform)
    requires
        is_plain_name(w),
    ensures
        ends_with(join_spec(x, w, platform), w),
        (platform == Platform::Windows && is_verbatim(x)) ==> {
            &&& is_verbatim(join_spec(x, w, platform))
            &&& ends_with(join_spec(x, w, platform), seq!['\\'] + w)
            &&& join_spec(x, w, platform) == x.take(prefix_len(x)) + seq!['\\'] + join_with(
                verbatim_components(x).push(w),
            )
        },
        !(platform == Platform::Windows && is_verbatim(x)) ==> join_spec(x, w, platform)
            == append_name(x, w, platform),
{
    assert(w[0] != '/' && w[0] != '\\' && w[2] != '\\');
    assert(prefix_len(w) == 0);
    let j = join_spec(x, w, platform);
    if platform == Platform::Windows && is_verbatim(x) {
        lemma_verbatim_prefix_boundary(x);
        lemma_split_no_sep(w, false);
        let n = verbatim_components(x);
        assert(seq![w].drop_last() =~= Seq::<Seq<char>>::empty());
        assert(w != seq!['.'] && w != seq!['.', '.']);
        assert(seq![w].last() == w);
        assert(apply_pieces(n, seq![w].drop_last()) == n);
        assert(w.len() != seq!['.'].len() && w.len() != seq!['.', '.'].len());
        assert(apply_piece(n, w) == n.push(w));
        assert(apply_pieces(n, seq![w]) == n.push(w));
        let pfx = x.take(prefix_len(x));
        assert(j == pfx + seq!['\\'] + join_with(n.push(w)));
        lemma_join_with_push(n, w);
        let sw = seq!['\\'] + w;
        if n.len() == 0 {
            assert(j =~= pfx + sw);
        } else {
            assert(j =~= (pfx + seq!['\\'] + join_with(n)) + sw);
        }
        assert(j.subrange(j.len() - sw.len(), j.len() as int) =~= sw);
        assert(j.subrange(j.len() - w.len(), j.len() as int) =~= w);
        assert(j[0] == x[0] && j[1] == x[1] && j[2] == x[2] && j[3] == x[3]);
    } else {
        assert(j.subrange(j.len() - w.len(), j.len() as int) =~= w);
    }
}

/// Pushing a plain name onto a verbatim Windows path that ends in
/// `\` and a plain name keeps that ending before the new name.
pub proof fn lemma_push_plain_after_tail(b: Seq<char>, t: Seq<char>, w: Seq<char>)
    requires
        is_verbatim(b),
        is_plain_name(t),
        is_plain_name(w),
        ends_with(b, seq!['\\'] + t),
    ensures
        ends_with(join_spec(b, w, Platform::Windows), seq!['\\'] + t + seq!['\\'] + w),
{
    lemma_push_plain_name(b, w, Platform::Windows);
    lemma_verbatim_prefix_boundary(b);
    let pb = prefix_len(b);
    let n = verbatim_components(b);
    let j = join_spec(b, w, Platform::Windows);
    let k = b.len() - t.len() - 1;
    let tail = seq!['\\'] + t + seq!['\\'] + w;
    let st = seq!['\\'] + t;
    assert(b.subrange(k, b.len() as int) == st);
    assert(b.subrange(k, b.len() as int)[0] == b[k]);
    assert(st[0] == '\\');
    assert(b[k] == '\\');
    assert forall|i: int| 0 <= i < t.len() implies b[k + 1 + i] == #[trigger] t[i] by {
        assert(b.subrange(k, b.len() as int)[i + 1] == b[k + 1 + i]);
        assert(st[i + 1] == t[i]);
    }
    lemma_join_with_push(n, w);
    if pb <= k {
        let u = b.subrange(pb, k);
        assert(b.skip(pb) =~= u + seq!['\\'] + t);
        lemma_split_tail(u, t);
        let ps = split_on(b.skip(pb), true);
        assert(ps.last().len() > 0);
        assert(n == nonempty_pieces(ps.drop_last()).push(t));
        let m = nonempty_pieces(ps.drop_last());
        assert(n.drop_last() =~= m);
        if m.len() == 0 {
            assert(join_with(n) == t);
            assert(j =~= b.take(pb) + tail);
        } else {
            assert(join_with(n) == join_with(m) + seq!['\\'] + t);
            assert(j =~= (b.take(pb) + seq!['\\'] + join_with(m)) + tail);
        }
    } else {
        if pb < b.len() {
            assert(b[k + 1 + (pb - k - 1)] == t[pb - k - 1]);
        }
        assert(pb == b.len());
        assert(b.skip(pb) =~= Seq::<char>::empty());
        let e: Seq<char> = Seq::empty();
        assert(split_on(e, true) == seq![e]);
        assert(seq![e].drop_last() =~= Seq::<Seq<char>>::empty());
        assert(nonempty_pieces(seq![e]) == nonempty_pieces(Seq::<Seq<char>>::empty()));
        assert(n =~= Seq::<Seq<char>>::empty());
        assert(b.take(pb) =~= b);
        assert(j =~= (b.subrange(0, k)) + tail);
    }
    assert(j.subrange(j.len() - tail.len(), j.len() as int) =~= tail);
}

/// The texts of a slice of string slices.
pub open spec fn str_views(s: Seq<&str>) -> Seq<Seq<char>> {
    s.map_values(|x: &str| x@)
}

/// The texts of a sequence of strings.
pub open spec fn piece_texts(v: Seq<String>) -> Seq<Seq<char>> {
    v.map_values(|s: String| s@)
}

fn is_ascii_letter(c: char) -> (b: bool)
    ensures
        b == is_letter(c),
{
    ('a' <= c && c <= 'z') || ('A' <= c && c <= 'Z')
}

fn ends_component_char(c: char, verbatim: bool) -> (b: bool)
    ensures
        b == ends_component(c, verbatim),
{
    if verbatim {
        c == '\\'
    } else {
        c == '/' || c == '\\'
    }
}

/// The characters of `s`.
fn chars_of(s: &str) -> (cs: Vec<char>)
    ensures
        cs@ == s@,
{
    let n = s.unicode_len();
    let mut cs: Vec<char> = Vec::new();
    for i in 0..n
        invariant
            n == s@.len(),
            cs@ == s@.take(i as int),
    {
        cs.push(s.get_char(i));
        assert(cs@ =~= s@.take(i + 1));
    }
    assert(s@.take(n as int) =~= s@);
    cs
}

fn comp_end_exec(cs: &Vec<char>, start: usize, verbatim: bool) -> (e: usize)
    requires
        start <= cs@.len(),
    ensures
        e == comp_end(cs@, start as int, verbatim),
        start <= e <= cs@.len(),
{
    let mut i = start;
    while i < cs.len() && !ends_component_char(cs[i], verbatim)
        invariant
            start <= i <= cs@.len(),
            comp_end(cs@, start as int, verbatim) == comp_end(cs@, i as int, verbatim),
        decreases cs@.len() - i,
    {
        i = i + 1;
    }
    i
}

proof fn lemma_comp_end_bounds(s: Seq<char>, start: int, verbatim: bool)
    requires
        0 <= start <= s.len(),
    ensures
        start <= comp_end(s, start, verbatim) <= s.len(),
    decreases s.len() - start,
{
    if start < s.len() && !ends_component(s[start], verbatim) {
        lemma_comp_end_bounds(s, start + 1, verbatim);
    }
}

fn prefix_len_exec(cs: &Vec<char>) -> (p: usize)
    ensures
        p == prefix_len(cs@),
        p <= cs@.len(),
{
    let n = cs.len();
    if n >= 2 && cs[0] == '\\' && cs[1] == '\\' {
        if n >= 4 && cs[2] == '?' && cs[3] == '\\' {
            if n >= 8 && cs[4] == 'U' && cs[5] == 'N' && cs[6] == 'C' && cs[7] == '\\' {
                let e1 = comp_end_exec(cs, 8, true);
                if e1 < n {
                    let e2 = comp_end_exec(cs, e1 + 1, true);
                    if e2 > e1 + 1 {
                        e2
                    } else {
                        e1
                    }
                } else {
                    e1
                }
            } else {
                let e = comp_end_exec(cs, 4, true);
                if e == 6 && is_ascii_letter(cs[4]) && cs[5] == ':' {
                    6
                } else {
                    e
                }
            }
        } else if n >= 4 && cs[2] == '.' && cs[3] == '\\' {
            comp_end_exec(cs, 4, false)
        } else {
            let e1 = comp_end_exec(cs, 2, false);
            if e1 > 2 && e1 < n {
                let e2 = comp_end_exec(cs, e1 + 1, false);
                if e2 > e1 + 1 {
                    e2
                } else {
                    0
                }
            } else {
                0
            }
        }
    } else if n >= 2 && is_ascii_letter(cs[0]) && cs[1] == ':' {
        2
    } else {
        0
    }
}

/// The pieces of `s` (whose characters are `cs`) from position `from` on.
fn split_exec(s: &str, cs: &Vec<char>, from: usize, verbatim: bool) -> (ps: Vec<String>)
    requires
        cs@ == s@,
        from <= cs@.len(),
    ensures
        piece_texts(ps@) == split_on(s@.skip(from as int), verbatim),
{
    let ghost t = s@.skip(from as int);
    let n = cs.len();
    let mut ps: Vec<String> = Vec::new();
    let mut start = from;
    let mut i = from;
    proof {
        assert(t.take(0) =~= Seq::<char>::empty());
        assert(s@.subrange(from as int, from as int) =~= Seq::<char>::empty());
        assert(piece_texts(ps@) =~= Seq::<Seq<char>>::empty());
    }
    while i < n
        invariant
            cs@ == s@,
            t == s@.skip(from as int),
            n == cs@.len(),
            from <= start <= i <= n,
            piece_texts(ps@).push(s@.subrange(start as int, i as int)) == split_on(
                t.take(i - from),
                verbatim,
            ),
        decreases n - i,
    {
        proof {
            let k = (i - from) as int;
            assert(t.take(k + 1).drop_last() =~= t.take(k));
            assert(t.take(k + 1).last() == cs@[i as int]);
        }
        if ends_component_char(cs[i], verbatim) {
            let piece = s.substring_char(start, i).to_owned();
            let ghost before = piece_texts(ps@);
            ps.push(piece);
            proof {
                assert(s@.subrange(i + 1, i + 1) =~= Seq::<char>::empty());
                assert(piece_texts(ps@) =~= before.push(s@.subrange(start as int, i as int)));
            }
            start = i + 1;
        } else {
            proof {
                assert(s@.subrange(start as int, i + 1) =~= s@.subrange(start as int, i as int).push(
                    cs@[i as int],
                ));
            }
        }
        i = i + 1;
    }
    let last = s.substring_char(start, n).to_owned();
    let ghost before = piece_texts(ps@);
    ps.push(last);
    proof {
        assert(t.take(n - from) =~= t);
        assert(piece_texts(ps@) =~= before.push(last@));
    }
    ps
}

fn nonempty_exec(ps: Vec<String>) -> (out: Vec<String>)
    ensures
        piece_texts(out@) == nonempty_pieces(piece_texts(ps@)),
{
    let ghost v = piece_texts(ps@);
    let mut out: Vec<String> = Vec::new();
    let mut i: usize = 0;
    while i < ps.len()
        invariant
            v == piece_texts(ps@),
            i <= ps@.len(),
            piece_texts(out@) == nonempty_pieces(v.take(i as int)),
        decreases ps@.len() - i,
    {
        proof {
            assert(v.take(i + 1).drop_last() =~= v.take(i as int));
        }
        let piece = ps[i].clone();
        if piece.as_str().unicode_len() > 0 {
            let ghost before = piece_texts(out@);
            out.push(piece);
            assert(piece_texts(out@) =~= before.push(v[i as int]));
        }
        i = i + 1;
    }
    assert(v.take(ps@.len() as int) =~= v);
    out
}

fn is_dot(piece: &str) -> (b: bool)
    ensures
        b == (piece@ == seq!['.']),
{
    let n = piece.unicode_len();
    if n == 1 && piece.get_char(0) == '.' {
        assert(piece@ =~= seq!['.']);
        true
    } else {
        false
    }
}

fn is_dot_dot(piece: &str) -> (b: bool)
    ensures
        b == (piece@ == seq!['.', '.']),
{
    let n = piece.unicode_len();
    if n == 2 && piece.get_char(0) == '.' && piece.get_char(1) == '.' {
        assert(piece@ =~= seq!['.', '.']);
        true
    } else {
        false
    }
}

fn apply_exec(cs: Vec<String>, ps: Vec<String>) -> (out: Vec<String>)
    ensures
        piece_texts(out@) == apply_pieces(piece_texts(cs@), piece_texts(ps@)),
{
    let ghost c0 = piece_texts(cs@);
    let ghost v = piece_texts(ps@);
    let mut out = cs;
    let mut i: usize = 0;
    while i < ps.len()
        invariant
            v == piece_texts(ps@),
            i <= ps@.len(),
            piece_texts(out@) == apply_pieces(c0, v.take(i as int)),
        decreases ps@.len() - i,
    {
        proof {
            assert(v.take(i + 1).drop_last() =~= v.take(i as int));
        }
        let piece = ps[i].clone();
        let ghost before = piece_texts(out@);
        if piece.as_str().unicode_len() == 0 || is_dot(piece.as_str()) {
        } else if is_dot_dot(piece.as_str()) {
            let k = out.len();
            if k > 0 {
                let normal = !is_dot(out[k - 1].as_str()) && !is_dot_dot(out[k - 1].as_str());
                if normal {
                    out.pop();
                    assert(piece_texts(out@) =~= before.drop_last());
                }
            }
        } else {
            out.push(piece);
            assert(piece_texts(out@) =~= before.push(v[i as int]));
        }
        i = i + 1;
    }
    assert(v.take(ps@.len() as int) =~= v);
    out
}

fn join_with_exec(cs: &Vec<String>) -> (s: String)
    ensures
        s@ == join_with(piece_texts(cs@)),
{
    let ghost v = piece_texts(cs@);
    let mut s = String::new();
    let mut i: usize = 0;
    while i < cs.len()
        invariant
            v == piece_texts(cs@),
            i <= cs@.len(),
            s@ == join_with(v.take(i as int)),
        decreases cs@.len() - i,
    {
        proof {
            assert(v.take(i + 1).drop_last() =~= v.take(i as int));
        }
        if i > 0 {
            s.append("\\");
            proof {
                reveal_strlit("\\");
            }
        }
        s.append(cs[i].as_str());
        proof {
            if i == 0 {
                assert(v.take(1)[0] == v[0]);
            }
        }
        assert(s@ =~= join_with(v.take(i + 1)));
        i = i + 1;
    }
    assert(v.take(cs@.len() as int) =~= v);
    s
}

/// The text of `base` with the non-empty, unprefixed `segment` pushed onto
/// it, where `base` is a verbatim Windows path.
fn verbatim_join_exec(base: &str, bcs: &Vec<char>, segment: &str, scs: &Vec<char>) -> (r: String)
    requires
        bcs@ == base@,
        scs@ == segment@,
        segment@.len() > 0,
    ensures
        r@ == verbatim_join(base@, segment@),
{
    let p = prefix_len_exec(bcs);
    let start: Vec<String> = if scs[0] == '/' || scs[0] == '\\' {
        let e: Vec<String> = Vec::new();
        assert(piece_texts(e@) =~= Seq::<Seq<char>>::empty());
        e
    } else {
        nonempty_exec(split_exec(base, bcs, p, true))
    };
    assert(piece_texts(start@) == (if is_win_sep(segment@[0]) {
        Seq::<Seq<char>>::empty()
    } else {
        nonempty_pieces(split_on(base@.skip(p as int), true))
    }));
    let pieces = split_exec(segment, scs, 0, false);
    assert(segment@.skip(0) =~= segment@);
    let comps = apply_exec(start, pieces);
    let mut r = base.substring_char(0, p).to_owned();
    r.append("\\");
    proof {
        reveal_strlit("\\");
    }
    let tail = join_with_exec(&comps);
    r.append(tail.as_str());
    proof {
        assert(base@.subrange(0, p as int) =~= base@.take(p as int));
    }
    assert(r@ =~= verbatim_join(base@, segment@));
    r
}

fn win_join_exec(base: &str, segment: &str) -> (r: String)
    ensures
        r@ == win_join(base@, segment@),
{
    let bcs = chars_of(base);
    let scs = chars_of(segment);
    let bn = bcs.len();
    let sn = scs.len();
    if prefix_len_exec(&scs) > 0 {
        segment.to_owned()
    } else if bn >= 4 && bcs[0] == '\\' && bcs[1] == '\\' && bcs[2] == '?' && bcs[3] == '\\' && sn
        > 0 {
        verbatim_join_exec(base, &bcs, segment, &scs)
    } else if sn > 0 && (scs[0] == '/' || scs[0] == '\\') {
        let p = prefix_len_exec(&bcs);
        let mut r = base.substring_char(0, p).to_owned();
        r.append(segment);
        assert(base@.subrange(0, p as int) =~= base@.take(p as int));
        r
    } else {
        let plain = bn == 0 || bcs[bn - 1] == '/' || bcs[bn - 1] == '\\' || (bn == 2 && bcs[1]
            == ':' && is_ascii_letter(bcs[0]));
        let mut r = base.to_owned();
        if !plain {
            r.append("\\");
            proof {
                reveal_strlit("\\");
            }
        }
        r.append(segment);
        assert(r@ =~= win_join(base@, segment@));
        r
    }
}

fn unix_join_exec(base: &str, segment: &str) -> (r: String)
    ensures
        r@ == unix_join(base@, segment@),
{
    let bn = base.unicode_len();
    let sn = segment.unicode_len();
    if sn > 0 && segment.get_char(0) == '/' {
        segment.to_owned()
    } else {
        let plain = bn == 0 || base.get_char(bn - 1) == '/';
        let mut r = base.to_owned();
        if !plain {
            r.append("/");
            proof {
                reveal_strlit("/");
            }
        }
        r.append(segment);
        assert(r@ =~= unix_join(base@, segment@));
        r
    }
}

/// Pushes `segment` onto the path `path` in place, as `PathBuf::push` does
/// on `platform`.
pub fn push_segment(path: &mut String, segment: &str, platform: Platform)
    ensures
        final(path)@ == join_spec(old(path)@, segment@, platform),
{
    let joined = match platform {
        Platform::Windows => win_join_exec(path.as_str(), segment),
        _ => unix_join_exec(path.as_str(), segment),
    };
    *path = joined;
}

/// The path `base` with `segment` pushed onto it, as `PathBuf::join` gives
/// it on `platform`.
pub fn join_path(base: &str, segment: &str, platform: Platform) -> (joined: String)
    ensures
        joined@ == join_spec(base@, segment@, platform),
{
    match platform {
        Platform::Windows => win_join_exec(base, segment),
        _ => unix_join_exec(base, segment),
    }
}

} // verus!
