//! POSIX path text: separators, components and joins.
use vstd::prelude::*;

use crate::text::{chars_of, names_of};

verus! {

broadcast use vstd::string::group_string_axioms;

/// The pieces of `s` between `/` separators, as `str::split('/')` yields them.
pub open spec fn split_segments(s: Seq<char>) -> Seq<Seq<char>>
    decreases s.len(),
{
    if s.len() == 0 {
        seq![Seq::<char>::empty()]
    } else {
        let prev = split_segments(s.drop_last());
        if s.last() == '/' {
            prev.push(Seq::<char>::empty())
        } else {
            prev.update(prev.len() - 1, prev.last().push(s.last()))
        }
    }
}

/// The names joined with `/` between them.
pub open spec fn join_segments(segs: Seq<Seq<char>>) -> Seq<char>
    decreases segs.len(),
{
    if segs.len() == 0 {
        Seq::<char>::empty()
    } else if segs.len() == 1 {
        segs[0]
    } else {
        join_segments(segs.drop_last()) + seq!['/'] + segs.last()
    }
}

pub proof fn lemma_split_nonempty(s: Seq<char>)
    ensures
        split_segments(s).len() >= 1,
    decreases s.len(),
{
    if s.len() > 0 {
        lemma_split_nonempty(s.drop_last());
    }
}

/// Segments of the prefix `chars[0..i]`, split into the completed segments and
/// the one still open at `start`.
pub proof fn lemma_split_step(s: Seq<char>, i: int, start: int)
    requires
        0 <= start <= i < s.len(),
        split_segments(s.take(i)).last() =~= s.subrange(start, i),
    ensures
        s[i] == '/' ==> split_segments(s.take(i + 1)) =~= split_segments(s.take(i)).push(
            Seq::<char>::empty(),
        ),
        s[i] != '/' ==> split_segments(s.take(i + 1)).last() =~= s.subrange(start, i + 1),
        s[i] != '/' ==> split_segments(s.take(i + 1)).drop_last() =~= split_segments(
            s.take(i),
        ).drop_last(),
{
    lemma_split_nonempty(s.take(i));
    assert(s.take(i + 1).drop_last() =~= s.take(i));
    assert(s.take(i + 1).last() == s[i]);
}


/// A piece that names no component: empty (repeated separators) or `.`.
pub open spec fn is_empty_or_dot(piece: Seq<char>) -> bool {
    piece.len() == 0 || piece =~= seq!['.']
}

/// The pieces that name a directory or file, in order.
pub open spec fn keep_named(pieces: Seq<Seq<char>>) -> Seq<Seq<char>>
    decreases pieces.len(),
{
    if pieces.len() == 0 {
        Seq::empty()
    } else {
        let rest = keep_named(pieces.drop_last());
        if is_empty_or_dot(pieces.last()) {
            rest
        } else {
            rest.push(pieces.last())
        }
    }
}

/// The components of `s` as `Path::components` yields them, each as its text:
/// `/` for the root, `.` for a leading current-directory mark, then the names.
pub open spec fn spec_components(s: Seq<char>) -> Seq<Seq<char>> {
    let pieces = split_segments(s);
    let lead = if s.len() > 0 && s[0] == '/' {
        seq![seq!['/']]
    } else if pieces[0] =~= seq!['.'] {
        seq![seq!['.']]
    } else {
        Seq::<Seq<char>>::empty()
    };
    lead + keep_named(pieces)
}

/// `path` relative to `base` when `base`'s components start `path`'s; `None`
/// when nothing remains; `path` itself when `base` is not a prefix. The
/// remainder is rebuilt from its components.
pub open spec fn spec_relative_path(base: Seq<char>, path: Seq<char>) -> Option<Seq<char>> {
    let bc = spec_components(base);
    let pc = spec_components(path);
    if bc.len() <= pc.len() && pc.take(bc.len() as int) =~= bc {
        let rest = pc.skip(bc.len() as int);
        if rest.len() == 0 {
            None
        } else {
            Some(join_segments(rest))
        }
    } else {
        Some(path)
    }
}

/// Some component of `path` is `.git`.
pub open spec fn spec_is_git_internal(path: Seq<char>) -> bool {
    split_segments(path).contains(".git"@)
}

/// The pieces of `path` between `/` separators.
pub fn split_path(path: &String) -> (v: Vec<String>)
    ensures
        names_of(v@) == split_segments(path@),
{
    let chars = chars_of(path.as_str());
    let n = chars.len();
    let ghost s = path@;
    let mut out: Vec<String> = Vec::new();
    let mut start: usize = 0;
    let mut i: usize = 0;
    proof {
        assert(s.take(0) =~= Seq::<char>::empty());
        assert(split_segments(s.take(0)) =~= seq![Seq::<char>::empty()]);
        assert(s.subrange(0, 0) =~= Seq::<char>::empty());
    }
    while i < n
        invariant
            n == chars@.len(),
            chars@ == s,
            s == path@,
            start <= i <= n,
            split_segments(s.take(i as int)).last() =~= s.subrange(start as int, i as int),
            names_of(out@) =~= split_segments(s.take(i as int)).drop_last(),
        decreases n - i,
    {
        proof {
            lemma_split_step(s, i as int, start as int);
            lemma_split_nonempty(s.take(i as int));
        }
        if chars[i] == '/' {
            let piece = path.as_str().substring_char(start, i).to_string();
            let ghost before = out@;
            out.push(piece);
            proof {
                let segs = split_segments(s.take(i as int));
                assert(names_of(out@) =~= names_of(before).push(piece@));
                assert(segs.drop_last().push(segs.last()) =~= segs);
                assert(split_segments(s.take(i + 1)).drop_last() =~= segs);
                assert(s.subrange(i + 1, i + 1) =~= Seq::<char>::empty());
            }
            start = i + 1;
        }
        i = i + 1;
    }
    let piece = path.as_str().substring_char(start, n).to_string();
    let ghost before = out@;
    out.push(piece);
    proof {
        assert(s.take(n as int) =~= s);
        lemma_split_nonempty(s);
        let segs = split_segments(s);
        assert(names_of(out@) =~= names_of(before).push(piece@));
        assert(segs.drop_last().push(segs.last()) =~= segs);
    }
    out
}

/// The names joined with `/` between them.
pub fn join_path(names: &Vec<String>) -> (s: String)
    ensures
        s@ == join_segments(names_of(names@)),
{
    let mut out = String::new();
    let mut k: usize = 0;
    while k < names.len()
        invariant
            0 <= k <= names@.len(),
            out@ == join_segments(names_of(names@).take(k as int)),
        decreases names@.len() - k,
    {
        let ghost all = names_of(names@);
        proof {
            assert(all.take(k + 1).drop_last() =~= all.take(k as int));
            assert(all.take(k + 1).last() == names@[k as int]@);
        }
        if k > 0 {
            out.append("/");
            proof {
                reveal_strlit("/");
            }
        }
        out.append(names[k].as_str());
        proof {
            if k == 0 {
                assert(all.take(1) =~= seq![names@[0]@]);
            }
        }
        k = k + 1;
    }
    proof {
        assert(names_of(names@).take(names@.len() as int) =~= names_of(names@));
    }
    out
}

/// `name` joined onto `dir` as `Path::join` does: an absolute `name`
/// replaces `dir`; otherwise a `/` goes between them unless `dir` is empty
/// or already ends in one.
pub open spec fn spec_join_child(dir: Seq<char>, name: Seq<char>) -> Seq<char> {
    if name.len() > 0 && name[0] == '/' {
        name
    } else if dir.len() == 0 {
        name
    } else if dir.last() == '/' {
        dir + name
    } else {
        dir + "/"@ + name
    }
}

pub fn join_child(dir: &String, name: &str) -> (s: String)
    ensures
        s@ == spec_join_child(dir@, name@),
{
    let name_chars = chars_of(name);
    if name_chars.len() > 0 && name_chars[0] == '/' {
        return String::from_str(name);
    }
    let dir_chars = chars_of(dir.as_str());
    let n = dir_chars.len();
    if n == 0 {
        return String::from_str(name);
    }
    let mut s = dir.clone();
    if dir_chars[n - 1] != '/' {
        s.append("/");
        proof {
            reveal_strlit("/");
        }
    }
    s.append(name);
    s
}

/// The components of `path`, as `Path::components` yields them.
pub fn components(path: &String) -> (v: Vec<String>)
    ensures
        names_of(v@) == spec_components(path@),
{
    let pieces = split_path(path);
    proof {
        lemma_split_nonempty(path@);
    }
    let mut out: Vec<String> = Vec::new();
    let chars = chars_of(path.as_str());
    if chars.len() > 0 && chars[0] == '/' {
        let root = String::from_str("/");
        proof {
            reveal_strlit("/");
            assert(root@ =~= seq!['/']);
        }
        out.push(root);
        proof {
            assert(names_of(out@) =~= seq![seq!['/']]);
        }
    } else if is_dot(&pieces[0]) {
        let dot = String::from_str(".");
        proof {
            reveal_strlit(".");
            assert(dot@ =~= seq!['.']);
        }
        out.push(dot);
        proof {
            assert(names_of(out@) =~= seq![seq!['.']]);
        }
    } else {
        proof {
            assert(names_of(out@) =~= Seq::<Seq<char>>::empty());
        }
    }
    let ghost lead = names_of(out@);
    proof {
        assert(names_of(pieces@)[0] == pieces@[0]@);
        assert(chars@ == path@);
        assert(lead =~= (if path@.len() > 0 && path@[0] == '/' {
            seq![seq!['/']]
        } else if split_segments(path@)[0] =~= seq!['.'] {
            seq![seq!['.']]
        } else {
            Seq::<Seq<char>>::empty()
        }));
    }
    let mut k: usize = 0;
    while k < pieces.len()
        invariant
            k <= pieces@.len(),
            names_of(pieces@) == split_segments(path@),
            names_of(out@) =~= lead + keep_named(names_of(pieces@).take(k as int)),
        decreases pieces@.len() - k,
    {
        let ghost all = names_of(pieces@);
        proof {
            assert(all.take(k + 1).drop_last() =~= all.take(k as int));
            assert(all.take(k + 1).last() == pieces@[k as int]@);
        }
        let skip = is_empty_or_dot_text(&pieces[k]);
        if !skip {
            let ghost before = out@;
            out.push(pieces[k].clone());
            proof {
                assert(names_of(out@) =~= names_of(before).push(pieces@[k as int]@));
            }
        }
        k = k + 1;
    }
    proof {
        assert(names_of(pieces@).take(pieces@.len() as int) =~= names_of(pieces@));
    }
    out
}

/// `s` is exactly `.`.
fn is_dot(s: &String) -> (b: bool)
    ensures
        b == (s@ =~= seq!['.']),
{
    let chars = chars_of(s.as_str());
    chars.len() == 1 && chars[0] == '.'
}

fn is_empty_or_dot_text(s: &String) -> (b: bool)
    ensures
        b == is_empty_or_dot(s@),
{
    let chars = chars_of(s.as_str());
    chars.len() == 0 || (chars.len() == 1 && chars[0] == '.')
}

/// `path` relative to `base`, as `Path::strip_prefix` gives it.
pub fn relative_path(base: &String, path: &String) -> (r: Option<String>)
    ensures
        match spec_relative_path(base@, path@) {
            Some(p) => r matches Some(x) && x@ == p,
            None => r is None,
        },
{
    let bc = components(base);
    let pc = components(path);
    let ghost bs = names_of(bc@);
    let ghost ps = names_of(pc@);
    if bc.len() > pc.len() {
        return Some(path.clone());
    }
    let mut i: usize = 0;
    while i < bc.len()
        invariant
            bc@.len() <= pc@.len(),
            i <= bc@.len(),
            bs == names_of(bc@),
            ps == names_of(pc@),
            bs == spec_components(base@),
            ps == spec_components(path@),
            forall|j: int| 0 <= j < i ==> bs[j] == ps[j],
        decreases bc@.len() - i,
    {
        if !(bc[i] == pc[i]) {
            proof {
                assert(bs[i as int] == bc@[i as int]@);
                assert(ps[i as int] == pc@[i as int]@);
                assert(ps.take(bs.len() as int)[i as int] != bs[i as int]);
                assert(!(ps.take(bs.len() as int) =~= bs));
                assert(spec_relative_path(base@, path@) == Some(path@));
            }
            return Some(path.clone());
        }
        i = i + 1;
    }
    proof {
        assert(ps.take(bs.len() as int) =~= bs);
    }
    if bc.len() == pc.len() {
        return None;
    }
    let mut rest: Vec<String> = Vec::new();
    let mut k: usize = bc.len();
    while k < pc.len()
        invariant
            bc@.len() <= k <= pc@.len(),
            ps == names_of(pc@),
            names_of(rest@) =~= ps.skip(bc@.len() as int).take(k - bc@.len()),
        decreases pc@.len() - k,
    {
        let ghost before = rest@;
        rest.push(pc[k].clone());
        proof {
            let tail = ps.skip(bc@.len() as int);
            assert(tail.take(k + 1 - bc@.len()) =~= tail.take(k - bc@.len()).push(ps[k as int]));
            assert(names_of(rest@) =~= names_of(before).push(pc@[k as int]@));
        }
        k = k + 1;
    }
    proof {
        let tail = ps.skip(bc@.len() as int);
        assert(tail.take(pc@.len() - bc@.len()) =~= tail);
    }
    Some(join_path(&rest))
}

/// True when some component of `path` is `.git`.
pub fn is_git_internal_path(path: &String) -> (b: bool)
    ensures
        b == spec_is_git_internal(path@),
{
    let pieces = split_path(path);
    let git = String::from_str(".git");
    proof {
        reveal_strlit(".git");
    }
    crate::text::contains_string(&pieces, &git)
}

/// No `/` in `s`.
pub open spec fn has_no_slash(s: Seq<char>) -> bool {
    forall|i: int| 0 <= i < s.len() ==> s[i] != '/'
}

/// A text without separators is a single piece.
pub proof fn lemma_split_plain(s: Seq<char>)
    requires
        has_no_slash(s),
    ensures
        split_segments(s) == seq![s],
    decreases s.len(),
{
    if s.len() > 0 {
        let q = s.drop_last();
        assert(has_no_slash(q)) by {
            assert forall|i: int| 0 <= i < q.len() implies q[i] != '/' by {
                assert(q[i] == s[i]);
            }
        }
        lemma_split_plain(q);
        assert(s.last() != '/') by {
            assert(s[s.len() - 1] != '/');
        }
        assert(q.push(s.last()) =~= s);
        assert(split_segments(s) =~= seq![s]);
    } else {
        assert(s =~= Seq::<char>::empty());
    }
}

/// Splitting at a separator splits each side.
pub proof fn lemma_split_concat(x: Seq<char>, y: Seq<char>)
    ensures
        split_segments(x + seq!['/'] + y) == split_segments(x) + split_segments(y),
    decreases y.len(),
{
    lemma_split_nonempty(x);
    lemma_split_nonempty(y);
    let z = x + seq!['/'] + y;
    if y.len() == 0 {
        assert(z.drop_last() =~= x);
        assert(z.last() == '/');
        assert(split_segments(y) == seq![Seq::<char>::empty()]);
        assert(split_segments(x) + split_segments(y) =~= split_segments(x).push(Seq::<char>::empty()));
    } else {
        let y2 = y.drop_last();
        lemma_split_concat(x, y2);
        lemma_split_nonempty(y2);
        assert(z.drop_last() =~= x + seq!['/'] + y2);
        assert(z.last() == y.last());
        let a = split_segments(x);
        let b = split_segments(y2);
        if y.last() == '/' {
            assert((a + b).push(Seq::<char>::empty()) =~= a + b.push(Seq::<char>::empty()));
        } else {
            assert((a + b).update((a + b).len() - 1, (a + b).last().push(y.last())) =~= a + b.update(
                b.len() - 1,
                b.last().push(y.last()),
            ));
        }
    }
}

/// Names without separators, joined and split again, come back.
pub proof fn lemma_split_join(segs: Seq<Seq<char>>)
    requires
        segs.len() >= 1,
        forall|i: int| 0 <= i < segs.len() ==> has_no_slash(#[trigger] segs[i]),
    ensures
        split_segments(join_segments(segs)) == segs,
    decreases segs.len(),
{
    if segs.len() == 1 {
        lemma_split_plain(segs[0]);
        assert(seq![segs[0]] =~= segs);
    } else {
        let d = segs.drop_last();
        assert forall|i: int| 0 <= i < d.len() implies has_no_slash(#[trigger] d[i]) by {
            assert(d[i] == segs[i]);
        }
        lemma_split_join(d);
        assert(has_no_slash(segs[segs.len() - 1]));
        lemma_split_plain(segs.last());
        lemma_split_concat(join_segments(d), segs.last());
        assert(d + seq![segs.last()] =~= segs);
    }
}

proof fn lemma_join_update_last(segs: Seq<Seq<char>>, c: char)
    requires
        segs.len() >= 1,
    ensures
        join_segments(segs.update(segs.len() - 1, segs.last().push(c))) == join_segments(segs).push(c),
{
    let u = segs.update(segs.len() - 1, segs.last().push(c));
    if segs.len() == 1 {
        assert(u[0] == segs[0].push(c));
    } else {
        assert(u.drop_last() =~= segs.drop_last());
        assert(u.last() == segs.last().push(c));
        assert(join_segments(segs.drop_last()) + seq!['/'] + segs.last().push(c) =~= (join_segments(
            segs.drop_last(),
        ) + seq!['/'] + segs.last()).push(c));
    }
}

/// Splitting at separators and joining again gives the text back.
pub proof fn lemma_join_split(s: Seq<char>)
    ensures
        join_segments(split_segments(s)) == s,
    decreases s.len(),
{
    lemma_split_nonempty(s);
    if s.len() > 0 {
        let q = s.drop_last();
        lemma_join_split(q);
        lemma_split_nonempty(q);
        let segs = split_segments(q);
        assert(q.push(s.last()) =~= s);
        if s.last() == '/' {
            assert(segs.push(Seq::<char>::empty()).drop_last() =~= segs);
            assert(join_segments(segs) + seq!['/'] + Seq::<char>::empty() =~= s);
        } else {
            lemma_join_update_last(segs, s.last());
        }
    }
}

/// The pieces of a text hold no separator.
pub proof fn lemma_split_no_slash(s: Seq<char>)
    ensures
        forall|i: int|
            0 <= i < split_segments(s).len() ==> has_no_slash(#[trigger] split_segments(s)[i]),
    decreases s.len(),
{
    lemma_split_nonempty(s);
    if s.len() > 0 {
        let q = s.drop_last();
        lemma_split_no_slash(q);
        lemma_split_nonempty(q);
        let prev = split_segments(q);
        if s.last() != '/' {
            assert forall|i: int| 0 <= i < split_segments(s).len() implies has_no_slash(
                #[trigger] split_segments(s)[i],
            ) by {
                if i == prev.len() - 1 {
                    let piece = prev.last().push(s.last());
                    assert(has_no_slash(prev[prev.len() - 1]));
                    assert forall|k: int| 0 <= k < piece.len() implies piece[k] != '/' by {
                        if k < piece.len() - 1 {
                            assert(piece[k] == prev.last()[k]);
                        }
                    }
                } else {
                    assert(split_segments(s)[i] == prev[i]);
                }
            }
        } else {
            assert forall|i: int| 0 <= i < split_segments(s).len() implies has_no_slash(
                #[trigger] split_segments(s)[i],
            ) by {
                if i < prev.len() {
                    assert(split_segments(s)[i] == prev[i]);
                }
            }
        }
    }
}

/// A join whose first name is not empty starts with that name's first
/// character.
pub proof fn lemma_join_first(segs: Seq<Seq<char>>)
    requires
        segs.len() >= 1,
        segs[0].len() > 0,
    ensures
        join_segments(segs).len() > 0,
        join_segments(segs)[0] == segs[0][0],
    decreases segs.len(),
{
    if segs.len() > 1 {
        lemma_join_first(segs.drop_last());
    }
}

/// Bytes of `s` in UTF-8.
pub open spec fn utf8_len(s: Seq<char>) -> nat {
    vstd::utf8::encode_utf8(s).len()
}

pub proof fn lemma_utf8_len_add(a: Seq<char>, b: Seq<char>)
    ensures
        utf8_len(a + b) == utf8_len(a) + utf8_len(b),
    decreases a.len(),
{
    if a.len() == 0 {
        assert(a + b =~= b);
    } else {
        lemma_utf8_len_add(a.drop_first(), b);
        assert((a + b).drop_first() =~= a.drop_first() + b);
        assert((a + b)[0] == a[0]);
    }
}

pub proof fn lemma_utf8_len_slash()
    ensures
        utf8_len(seq!['/']) == 1,
{
    assert(('/' as u32) == 0x2f);
    assert(seq!['/'][0] == '/');
    assert(seq!['/'].drop_first() =~= Seq::<char>::empty());
    assert(vstd::utf8::encode_utf8(Seq::<char>::empty()).len() == 0);
}

/// Bytes of all names, without separators.
pub open spec fn names_len(segs: Seq<Seq<char>>) -> nat
    decreases segs.len(),
{
    if segs.len() == 0 {
        0
    } else {
        names_len(segs.drop_last()) + utf8_len(segs.last())
    }
}

pub proof fn lemma_utf8_len_join(segs: Seq<Seq<char>>)
    requires
        segs.len() >= 1,
    ensures
        utf8_len(join_segments(segs)) == names_len(segs) + segs.len() - 1,
    decreases segs.len(),
{
    if segs.len() == 1 {
        assert(segs.drop_last() =~= Seq::<Seq<char>>::empty());
    } else {
        lemma_utf8_len_join(segs.drop_last());
        let j = join_segments(segs.drop_last());
        lemma_utf8_len_add(j + seq!['/'], segs.last());
        lemma_utf8_len_add(j, seq!['/']);
        lemma_utf8_len_slash();
    }
}

pub proof fn lemma_names_len_front(e: Seq<char>, segs: Seq<Seq<char>>)
    ensures
        names_len(seq![e] + segs) == utf8_len(e) + names_len(segs),
    decreases segs.len(),
{
    if segs.len() == 0 {
        assert(seq![e] + segs =~= seq![e]);
        assert(seq![e].drop_last() =~= Seq::<Seq<char>>::empty());
        assert(seq![e].last() == e);
        assert(names_len(Seq::<Seq<char>>::empty()) == 0);
    } else {
        lemma_names_len_front(e, segs.drop_last());
        assert((seq![e] + segs).drop_last() =~= seq![e] + segs.drop_last());
    }
}

} // verus!
