//! Paths compared by their parts: whether the client is among the running
//! processes (macOS), by comparing the paths that `ps` lists with the
//! client's executable; which ancestor of a path is its `.app` bundle; and
//! whether a Windows package folder holds a file.

use vstd::prelude::*;
use crate::text::{
    find_char, first_index, lemma_first_index, lemma_first_index_bounds, line_bounds, lines,
    str_chars, trim, trim_bounds,
};

verus! {

/// The named parts of a path whose separator is `sep`, in order: the pieces
/// between separators, without empty pieces and without `.` pieces.
pub open spec fn named_parts(s: Seq<char>, sep: char) -> Seq<Seq<char>>
    decreases s.len(),
{
    if s.len() == 0 {
        seq![]
    } else {
        let k = first_index(s, sep);
        let piece = s.take(k);
        let rest = if k < s.len() {
            proof {
                lemma_first_index_bounds(s, sep);
            }
            named_parts(s.skip(k + 1), sep)
        } else {
            seq![]
        };
        if piece.len() == 0 || piece == seq!['.'] {
            rest
        } else {
            seq![piece] + rest
        }
    }
}

/// The named parts of a Unix path.
pub open spec fn path_parts(s: Seq<char>) -> Seq<Seq<char>> {
    named_parts(s, '/')
}

/// A Unix path as `std::path::Path` compares it: whether it starts at the
/// root, whether a relative path starts with a `.` part, and its named parts.
/// Repeated and trailing separators and inner `.` parts make no difference.
pub open spec fn path_key(s: Seq<char>) -> (bool, bool, Seq<Seq<char>>) {
    let rooted = s.len() > 0 && s[0] == '/';
    let leading_dot = !rooted && s.take(first_index(s, '/')) == seq!['.'];
    (rooted, leading_dot, path_parts(s))
}

proof fn lemma_parts_step(s: Seq<char>, sep: char, pos: int, end: int)
    requires
        0 <= pos < s.len(),
        pos <= end <= s.len(),
        end < s.len() ==> s[end] == sep,
        forall|j: int| pos <= j < end ==> s[j] != sep,
    ensures
        named_parts(s.skip(pos), sep) == ({
            let piece = s.subrange(pos, end);
            let rest = if end < s.len() { named_parts(s.skip(end + 1), sep) } else { seq![] };
            if piece.len() == 0 || piece == seq!['.'] { rest } else { seq![piece] + rest }
        }),
{
    let t = s.skip(pos);
    lemma_first_index(t, sep, end - pos);
    assert(t.take(end - pos) =~= s.subrange(pos, end));
    if end < s.len() {
        assert(t.skip(end - pos + 1) =~= s.skip(end + 1));
    }
}

/// The positions `(start, end)` of the named parts of `s[from..to]`, whose
/// separator is `sep`.
fn part_bounds(s: &Vec<char>, from: usize, to: usize, sep: char) -> (res: Vec<(usize, usize)>)
    requires
        from <= to <= s.len(),
    ensures
        res@.len() == named_parts(s@.subrange(from as int, to as int), sep).len(),
        forall|i: int| 0 <= i < res@.len() ==> from <= (#[trigger] res@[i]).0 <= res@[i].1 <= to,
        forall|i: int| 0 <= i < res@.len() ==> s@.subrange(res@[i].0 as int, res@[i].1 as int)
            == #[trigger] named_parts(s@.subrange(from as int, to as int), sep)[i],
{
    let ghost t = s@.subrange(from as int, to as int);
    let mut out: Vec<(usize, usize)> = Vec::new();
    let mut pos: usize = from;
    assert(t.skip(0) =~= t);
    while pos < to
        invariant
            from <= pos <= to <= s.len(),
            t == s@.subrange(from as int, to as int),
            out@.len() + named_parts(t.skip(pos - from), sep).len() == named_parts(t, sep).len(),
            forall|i: int| 0 <= i < out@.len() ==> from <= (#[trigger] out@[i]).0 <= out@[i].1 <= to,
            forall|i: int| 0 <= i < out@.len() ==> s@.subrange(out@[i].0 as int, out@[i].1 as int) == named_parts(t, sep)[i],
            forall|i: int| 0 <= i < named_parts(t.skip(pos - from), sep).len() ==> named_parts(t, sep)[out@.len() + i] == #[trigger] named_parts(t.skip(pos - from), sep)[i],
        decreases to - pos,
    {
        let end = find_char(s, pos, to, sep);
        proof {
            lemma_parts_step(t, sep, pos - from, end - from);
        }
        let ghost rest_before = named_parts(t.skip(pos - from), sep);
        let ghost piece = t.subrange(pos - from, end - from);
        assert(piece =~= s@.subrange(pos as int, end as int));
        let dot = end == pos + 1 && s[pos] == '.';
        assert(dot == (piece == seq!['.'])) by {
            if piece == seq!['.'] {
                assert(piece[0] == s@[pos as int]);
            }
            if dot {
                assert(piece =~= seq!['.']);
            }
        }
        let ghost pushed = end > pos && !dot;
        let ghost rest = if end < to { named_parts(t.skip(end + 1 - from), sep) } else { Seq::<Seq<char>>::empty() };
        assert(rest_before == if pushed { seq![piece] + rest } else { rest });
        if end > pos && !dot {
            let ghost k: int = out@.len() as int;
            assert(named_parts(t, sep)[k] == rest_before[0]);
            out.push((pos, end));
        }
        if end < to {
            pos = end + 1;
        } else {
            pos = to;
            assert(t.skip(pos - from) =~= Seq::<char>::empty());
        }
        assert(end + 1 < to ==> t.skip(end + 1 - from) == t.skip(pos - from));
        assert(named_parts(t.skip(pos - from), sep) == rest);
        assert forall|i: int| 0 <= i < named_parts(t.skip(pos - from), sep).len() implies named_parts(t, sep)[out@.len() + i] == #[trigger] named_parts(t.skip(pos - from), sep)[i] by {
            if pushed {
                assert(rest[i] == rest_before[i + 1]);
            } else {
                assert(rest[i] == rest_before[i]);
            }
        }
    }
    assert(t.skip(pos - from) =~= Seq::<char>::empty());
    out
}

fn ranges_equal(s: &Vec<char>, a: usize, b: usize, t: &Vec<char>, c: usize, d: usize) -> (res: bool)
    requires
        a <= b <= s.len(),
        c <= d <= t.len(),
    ensures
        res == (s@.subrange(a as int, b as int) == t@.subrange(c as int, d as int)),
{
    if b - a != d - c {
        assert(s@.subrange(a as int, b as int).len() != t@.subrange(c as int, d as int).len());
        return false;
    }
    let ghost ss = s@.subrange(a as int, b as int);
    let ghost tt = t@.subrange(c as int, d as int);
    let mut i: usize = 0;
    while i < b - a
        invariant
            a <= b <= s.len(),
            c <= d <= t.len(),
            b - a == d - c,
            i <= b - a,
            ss == s@.subrange(a as int, b as int),
            tt == t@.subrange(c as int, d as int),
            forall|j: int| 0 <= j < i ==> ss[j] == tt[j],
        decreases b - a - i,
    {
        assert(ss[i as int] == s@[a + i]);
        assert(tt[i as int] == t@[c + i]);
        if s[a + i] != t[c + i] {
            return false;
        }
        i = i + 1;
    }
    assert(s@.subrange(a as int, b as int) =~= t@.subrange(c as int, d as int));
    true
}

fn key_head(s: &Vec<char>, from: usize, to: usize) -> (res: (bool, bool))
    requires
        from <= to <= s.len(),
    ensures
        res.0 == path_key(s@.subrange(from as int, to as int)).0,
        res.1 == path_key(s@.subrange(from as int, to as int)).1,
{
    let ghost t = s@.subrange(from as int, to as int);
    let rooted = from < to && s[from] == '/';
    let k = find_char(s, from, to, '/');
    proof {
        lemma_first_index(t, '/', k - from);
    }
    let dot = k > from && k - from == 1 && s[from] == '.';
    assert(dot == (t.take(k - from) == seq!['.'])) by {
        if t.take(k - from) == seq!['.'] {
            assert(t.take(k - from).len() == 1);
            assert(t.take(k - from)[0] == s@[from as int]);
        }
        if dot {
            assert(t.take(k - from) =~= seq!['.']);
        }
    }
    (rooted, !rooted && dot)
}

/// Whether the path `s[from..to]` and the path `t` are the same `Path`.
fn same_path(s: &Vec<char>, from: usize, to: usize, t: &Vec<char>) -> (res: bool)
    requires
        from <= to <= s.len(),
    ensures
        res == (path_key(s@.subrange(from as int, to as int)) == path_key(t@)),
{
    assert(t@.subrange(0, t@.len() as int) =~= t@);
    let (r1, d1) = key_head(s, from, to);
    let (r2, d2) = key_head(t, 0, t.len());
    if r1 != r2 || d1 != d2 {
        return false;
    }
    let p1 = part_bounds(s, from, to, '/');
    let p2 = part_bounds(t, 0, t.len(), '/');
    let ghost q1 = path_parts(s@.subrange(from as int, to as int));
    let ghost q2 = path_parts(t@);
    assert(q2 == path_key(t@).2);
    if p1.len() != p2.len() {
        assert(q1.len() != q2.len());
        assert(path_key(s@.subrange(from as int, to as int)).2 != path_key(t@).2);
        return false;
    }
    let mut i: usize = 0;
    while i < p1.len()
        invariant
            i <= p1.len(),
            p1.len() == p2.len(),
            from <= to <= s.len(),
            q1 == path_parts(s@.subrange(from as int, to as int)),
            q2 == path_parts(t@.subrange(0, t@.len() as int)),
            q2 == path_key(t@).2,
            q1 == path_key(s@.subrange(from as int, to as int)).2,
            p1@.len() == q1.len(),
            p2@.len() == q2.len(),
            forall|k: int| 0 <= k < p1@.len() ==> from <= (#[trigger] p1@[k]).0 <= p1@[k].1 <= to,
            forall|k: int| 0 <= k < p1@.len() ==> s@.subrange(p1@[k].0 as int, p1@[k].1 as int) == #[trigger] q1[k],
            forall|k: int| 0 <= k < p2@.len() ==> 0 <= (#[trigger] p2@[k]).0 <= p2@[k].1 <= t.len(),
            forall|k: int| 0 <= k < p2@.len() ==> t@.subrange(p2@[k].0 as int, p2@[k].1 as int) == #[trigger] q2[k],
            forall|k: int| 0 <= k < i ==> q1[k] == q2[k],
        decreases p1.len() - i,
    {
        let (a, b) = p1[i];
        let (c, d) = p2[i];
        if !ranges_equal(s, a, b, t, c, d) {
            assert(q1[i as int] != q2[i as int]);
            assert(q1 != q2);
            return false;
        }
        i = i + 1;
    }
    assert(q1 =~= q2);
    true
}

/// Whether some line of `ps` output, trimmed, is the same path as `exe`.
pub open spec fn lists_executable(output: Seq<char>, exe: Seq<char>) -> bool {
    exists|i: int| 0 <= i < lines(output).len() && path_key(trim(#[trigger] lines(output)[i])) == path_key(exe)
}

/// Whether the process listing `output` (one command path per line) holds the
/// client executable `exe`.
pub fn process_list_has(output: &str, exe: &str) -> (res: bool)
    ensures
        res == lists_executable(output@, exe@),
{
    let cs = str_chars(output);
    let es = str_chars(exe);
    let bounds = line_bounds(&cs);
    let mut i: usize = 0;
    while i < bounds.len()
        invariant
            i <= bounds.len(),
            cs@ == output@,
            es@ == exe@,
            bounds@.len() == lines(cs@).len(),
            forall|k: int| 0 <= k < bounds@.len() ==> (#[trigger] bounds@[k]).0 <= bounds@[k].1 <= cs@.len(),
            forall|k: int| 0 <= k < bounds@.len() ==> cs@.subrange(bounds@[k].0 as int, bounds@[k].1 as int) == #[trigger] lines(cs@)[k],
            forall|k: int| 0 <= k < i ==> path_key(trim(#[trigger] lines(output@)[k])) != path_key(exe@),
        decreases bounds.len() - i,
    {
        let (a, b) = bounds[i];
        let (c, d) = trim_bounds(&cs, a, b);
        assert(cs@.subrange(a as int, b as int).subrange(c - a, d - a) =~= cs@.subrange(c as int, d as int));
        if same_path(&cs, c, d, &es) {
            assert(path_key(trim(lines(output@)[i as int])) == path_key(exe@));
            return true;
        }
        i = i + 1;
    }
    false
}

/// Whether a file name has the extension `app` as `Path::extension` reads
/// it: the name ends with `.app`, and that `.` is not its first character.
pub open spec fn has_app_extension(name: Seq<char>) -> bool {
    name.len() > 4 && name.subrange(name.len() - 4, name.len() as int) == ".app"@
}

/// How many named parts to drop from the end of `parts` to reach the nearest
/// part with the extension `app` (none dropped when the last part has it).
pub open spec fn app_depth(parts: Seq<Seq<char>>) -> Option<nat>
    decreases parts.len(),
{
    if parts.len() == 0 {
        None
    } else if has_app_extension(parts.last()) {
        Some(0)
    } else {
        match app_depth(parts.drop_last()) {
            Some(d) => Some(d + 1),
            None => None,
        }
    }
}

proof fn lemma_app_depth(parts: Seq<Seq<char>>, j: int)
    requires
        0 <= j <= parts.len(),
        forall|i: int| j <= i < parts.len() ==> !has_app_extension(#[trigger] parts[i]),
    ensures
        j > 0 && has_app_extension(parts[j - 1]) ==> app_depth(parts) == Some((parts.len() - j) as nat),
        j == 0 ==> app_depth(parts) is None,
    decreases parts.len(),
{
    if j < parts.len() {
        assert(!has_app_extension(parts[parts.len() - 1]));
        let shorter = parts.drop_last();
        assert forall|i: int| j <= i < shorter.len() implies !has_app_extension(#[trigger] shorter[i]) by {
            assert(shorter[i] == parts[i]);
        }
        lemma_app_depth(shorter, j);
        if j > 0 {
            assert(shorter[j - 1] == parts[j - 1]);
        }
    }
}

/// How many levels up from the Unix path `path` (the path itself counting as
/// none) its nearest ancestor whose name has the extension `app` lies, as
/// `Path::ancestors` goes: the launcher takes that ancestor as the
/// application bundle. `None` when no ancestor is one.
pub fn app_bundle_depth(path: &str) -> (res: Option<usize>)
    ensures
        match res {
            Some(d) => app_depth(path_parts(path@)) == Some(d as nat),
            None => app_depth(path_parts(path@)) is None,
        },
{
    let cs = str_chars(path);
    assert(cs@.subrange(0, cs@.len() as int) =~= cs@);
    let bounds = part_bounds(&cs, 0, cs.len(), '/');
    let ghost parts = path_parts(path@);
    let mut k: usize = bounds.len();
    while k > 0
        invariant
            k <= bounds@.len(),
            cs@ == path@,
            parts == path_parts(path@),
            bounds@.len() == parts.len(),
            forall|i: int| 0 <= i < bounds@.len() ==> 0 <= (#[trigger] bounds@[i]).0 <= bounds@[i].1 <= cs@.len(),
            forall|i: int| 0 <= i < bounds@.len() ==> cs@.subrange(bounds@[i].0 as int, bounds@[i].1 as int) == #[trigger] parts[i],
            forall|i: int| k <= i < parts.len() ==> !has_app_extension(#[trigger] parts[i]),
        decreases k,
    {
        let (a, b) = bounds[k - 1];
        let ghost name = parts[k - 1];
        assert(name == cs@.subrange(a as int, b as int));
        let found = b - a > 4 && cs[b - 4] == '.' && cs[b - 3] == 'a' && cs[b - 2] == 'p' && cs[b - 1] == 'p';
        assert(found == has_app_extension(name)) by {
            reveal_strlit(".app");
            if b - a > 4 {
                let tail = name.subrange(name.len() - 4, name.len() as int);
                assert(tail[0] == cs@[b - 4]);
                assert(tail[1] == cs@[b - 3]);
                assert(tail[2] == cs@[b - 2]);
                assert(tail[3] == cs@[b - 1]);
                if found {
                    assert(tail =~= ".app"@);
                }
                if has_app_extension(name) {
                    assert(tail[0] == ".app"@[0]);
                    assert(tail[1] == ".app"@[1]);
                    assert(tail[2] == ".app"@[2]);
                    assert(tail[3] == ".app"@[3]);
                }
            }
        }
        if found {
            proof {
                lemma_app_depth(parts, k as int);
            }
            return Some(bounds.len() - k);
        }
        k = k - 1;
    }
    proof {
        lemma_app_depth(parts, 0);
    }
    None
}

/// The parts of a Windows path in the verbatim form `fs::canonicalize`
/// gives (`\\?\C:\...`), where `\` is the only separator.
pub open spec fn windows_parts(s: Seq<char>) -> Seq<Seq<char>> {
    named_parts(s, '\\')
}

/// Whether the canonical Windows path `path` lies in the folder `root`: the
/// parts of `root` begin the parts of `path`, as `Path::starts_with` compares
/// whole parts.
pub open spec fn path_within(path: Seq<char>, root: Seq<char>) -> bool {
    windows_parts(root).len() <= windows_parts(path).len()
        && windows_parts(path).take(windows_parts(root).len() as int) == windows_parts(root)
}

/// Whether the canonical path `path` of a package's executable lies inside
/// the package's canonical folder `root`.
pub fn windows_path_within(path: &str, root: &str) -> (res: bool)
    ensures
        res == path_within(path@, root@),
{
    let cs = str_chars(path);
    let rs = str_chars(root);
    assert(cs@.subrange(0, cs@.len() as int) =~= cs@);
    assert(rs@.subrange(0, rs@.len() as int) =~= rs@);
    let pb = part_bounds(&cs, 0, cs.len(), '\\');
    let rb = part_bounds(&rs, 0, rs.len(), '\\');
    let ghost pp = windows_parts(path@);
    let ghost rp = windows_parts(root@);
    if rb.len() > pb.len() {
        return false;
    }
    let mut i: usize = 0;
    while i < rb.len()
        invariant
            i <= rb@.len() <= pb@.len(),
            cs@ == path@,
            rs@ == root@,
            pp == windows_parts(path@),
            rp == windows_parts(root@),
            pb@.len() == pp.len(),
            rb@.len() == rp.len(),
            forall|k: int| 0 <= k < pb@.len() ==> 0 <= (#[trigger] pb@[k]).0 <= pb@[k].1 <= cs@.len(),
            forall|k: int| 0 <= k < pb@.len() ==> cs@.subrange(pb@[k].0 as int, pb@[k].1 as int) == #[trigger] pp[k],
            forall|k: int| 0 <= k < rb@.len() ==> 0 <= (#[trigger] rb@[k]).0 <= rb@[k].1 <= rs@.len(),
            forall|k: int| 0 <= k < rb@.len() ==> rs@.subrange(rb@[k].0 as int, rb@[k].1 as int) == #[trigger] rp[k],
            forall|k: int| 0 <= k < i ==> pp[k] == rp[k],
        decreases rb.len() - i,
    {
        let (a, b) = pb[i];
        let (c, d) = rb[i];
        if !ranges_equal(&cs, a, b, &rs, c, d) {
            assert(pp.take(rp.len() as int)[i as int] != rp[i as int]);
            return false;
        }
        i = i + 1;
    }
    assert(pp.take(rp.len() as int) =~= rp);
    true
}

} // verus!
