//! The dirty paths of a working tree, from the entries of a Git status: the
//! entries that are neither current nor ignored, as a set of paths ordered
//! as `std::path::Path` orders them (component by component).
use vstd::prelude::*;

use crate::pathname::{components, spec_components};
use crate::text::{chars_of, names_of};

verus! {

broadcast use vstd::string::group_string_axioms;

/// The bit Git sets in a status for an ignored file.
pub const STATUS_IGNORED: u32 = 16384;

/// A status entry counts as dirty: not current (no bit set) and not ignored.
pub open spec fn is_reported(bits: u32) -> bool {
    bits != 0 && (bits & STATUS_IGNORED) != STATUS_IGNORED
}

/// Sign of the comparison of two texts character by character (the order of
/// their UTF-8 bytes): -1, 0 or 1.
pub open spec fn text_order(a: Seq<char>, b: Seq<char>) -> int
    decreases a.len(),
{
    if a.len() == 0 {
        if b.len() == 0 {
            0
        } else {
            -1
        }
    } else if b.len() == 0 {
        1
    } else if (a[0] as u32) < (b[0] as u32) {
        -1
    } else if (a[0] as u32) > (b[0] as u32) {
        1
    } else {
        text_order(a.drop_first(), b.drop_first())
    }
}

/// Components of one kind come before those of the next: the root, a
/// leading `.`, `..`, then names.
pub open spec fn component_rank(c: Seq<char>) -> int {
    if c == seq!['/'] {
        0
    } else if c == seq!['.'] {
        1
    } else if c == seq!['.', '.'] {
        2
    } else {
        3
    }
}

pub open spec fn component_order(a: Seq<char>, b: Seq<char>) -> int {
    let ra = component_rank(a);
    let rb = component_rank(b);
    if ra < rb {
        -1
    } else if ra > rb {
        1
    } else if ra == 3 {
        text_order(a, b)
    } else {
        0
    }
}

/// Lexicographic comparison of component sequences.
pub open spec fn components_order(a: Seq<Seq<char>>, b: Seq<Seq<char>>) -> int
    decreases a.len(),
{
    if a.len() == 0 {
        if b.len() == 0 {
            0
        } else {
            -1
        }
    } else if b.len() == 0 {
        1
    } else if component_order(a[0], b[0]) != 0 {
        component_order(a[0], b[0])
    } else {
        components_order(a.drop_first(), b.drop_first())
    }
}

/// How `Path` orders two paths.
pub open spec fn path_order(a: Seq<char>, b: Seq<char>) -> int {
    components_order(spec_components(a), spec_components(b))
}

/// Where `p` goes in the ordered `set`: before the first element not
/// smaller than it.
pub open spec fn insert_pos(set: Seq<Seq<char>>, p: Seq<char>) -> int
    decreases set.len(),
{
    if set.len() == 0 {
        0
    } else if path_order(set[0], p) >= 0 {
        0
    } else {
        1 + insert_pos(set.drop_first(), p)
    }
}

/// `p` added to the ordered `set` as `BTreeSet::insert` adds it: an element
/// equal to it stays in its place, otherwise `p` goes into its position.
pub open spec fn set_insert(set: Seq<Seq<char>>, p: Seq<char>) -> Seq<Seq<char>> {
    let k = insert_pos(set, p);
    if k < set.len() && path_order(set[k], p) == 0 {
        set
    } else {
        set.insert(k, p)
    }
}

/// The dirty paths of the status entries `entries` (path and status bits).
pub open spec fn spec_dirty_paths(entries: Seq<(Seq<char>, u32)>) -> Seq<Seq<char>>
    decreases entries.len(),
{
    if entries.len() == 0 {
        Seq::empty()
    } else {
        let prev = spec_dirty_paths(entries.drop_last());
        if is_reported(entries.last().1) {
            set_insert(prev, entries.last().0)
        } else {
            prev
        }
    }
}

/// Every two elements of `s` are in strictly increasing path order.
pub open spec fn path_sorted(s: Seq<Seq<char>>) -> bool {
    forall|i: int, j: int| 0 <= i < j < s.len() ==> path_order(#[trigger] s[i], #[trigger] s[j]) < 0
}

proof fn lemma_text_order_antisym(a: Seq<char>, b: Seq<char>)
    ensures
        text_order(a, b) == -text_order(b, a),
    decreases a.len(),
{
    if a.len() > 0 && b.len() > 0 {
        lemma_text_order_antisym(a.drop_first(), b.drop_first());
    }
}

proof fn lemma_text_order_zero(a: Seq<char>, b: Seq<char>)
    requires
        text_order(a, b) == 0,
    ensures
        a == b,
    decreases a.len(),
{
    if a.len() > 0 && b.len() > 0 {
        lemma_text_order_zero(a.drop_first(), b.drop_first());
        vstd::utf8::char_u32_cast(a[0], a[0] as u32);
        vstd::utf8::char_u32_cast(b[0], b[0] as u32);
        assert(a[0] == b[0]);
        assert forall|i: int| 0 <= i < a.len() implies a[i] == b[i] by {
            if i > 0 {
                assert(a[i] == a.drop_first()[i - 1]);
                assert(b[i] == b.drop_first()[i - 1]);
            }
        }
        assert(a =~= b);
    } else {
        assert(a =~= b);
    }
}

proof fn lemma_text_order_trans(a: Seq<char>, b: Seq<char>, c: Seq<char>)
    requires
        text_order(a, b) < 0,
        text_order(b, c) < 0,
    ensures
        text_order(a, c) < 0,
    decreases a.len(),
{
    if a.len() > 0 && b.len() > 0 && c.len() > 0 {
        if (a[0] as u32) == (b[0] as u32) && (b[0] as u32) == (c[0] as u32) {
            lemma_text_order_trans(a.drop_first(), b.drop_first(), c.drop_first());
        }
    }
}

proof fn lemma_component_order_antisym(a: Seq<char>, b: Seq<char>)
    ensures
        component_order(a, b) == -component_order(b, a),
{
    lemma_text_order_antisym(a, b);
}

proof fn lemma_component_order_zero(a: Seq<char>, b: Seq<char>)
    requires
        component_order(a, b) == 0,
    ensures
        a == b,
{
    if component_rank(a) == 3 {
        lemma_text_order_zero(a, b);
    }
}

proof fn lemma_component_order_trans(a: Seq<char>, b: Seq<char>, c: Seq<char>)
    requires
        component_order(a, b) < 0,
        component_order(b, c) < 0,
    ensures
        component_order(a, c) < 0,
{
    if component_rank(a) == 3 && component_rank(b) == 3 && component_rank(c) == 3 {
        lemma_text_order_trans(a, b, c);
    }
}

proof fn lemma_components_order_antisym(a: Seq<Seq<char>>, b: Seq<Seq<char>>)
    ensures
        components_order(a, b) == -components_order(b, a),
    decreases a.len(),
{
    if a.len() > 0 && b.len() > 0 {
        lemma_component_order_antisym(a[0], b[0]);
        lemma_components_order_antisym(a.drop_first(), b.drop_first());
    }
}

proof fn lemma_components_order_trans(a: Seq<Seq<char>>, b: Seq<Seq<char>>, c: Seq<Seq<char>>)
    requires
        components_order(a, b) < 0,
        components_order(b, c) < 0,
    ensures
        components_order(a, c) < 0,
    decreases a.len(),
{
    if a.len() > 0 {
        let x = component_order(a[0], b[0]);
        let y = component_order(b[0], c[0]);
        if x < 0 && y < 0 {
            lemma_component_order_trans(a[0], b[0], c[0]);
        } else if x < 0 {
            lemma_component_order_zero(b[0], c[0]);
        } else {
            lemma_component_order_zero(a[0], b[0]);
            if y == 0 {
                lemma_components_order_trans(a.drop_first(), b.drop_first(), c.drop_first());
            }
        }
    }
}

proof fn lemma_path_order_antisym(a: Seq<char>, b: Seq<char>)
    ensures
        path_order(a, b) == -path_order(b, a),
{
    lemma_components_order_antisym(spec_components(a), spec_components(b));
}

proof fn lemma_path_order_trans(a: Seq<char>, b: Seq<char>, c: Seq<char>)
    requires
        path_order(a, b) < 0,
        path_order(b, c) < 0,
    ensures
        path_order(a, c) < 0,
{
    lemma_components_order_trans(spec_components(a), spec_components(b), spec_components(c));
}

proof fn lemma_insert_pos(set: Seq<Seq<char>>, p: Seq<char>)
    ensures
        0 <= insert_pos(set, p) <= set.len(),
        forall|i: int| 0 <= i < insert_pos(set, p) ==> path_order(#[trigger] set[i], p) < 0,
        insert_pos(set, p) < set.len() ==> path_order(set[insert_pos(set, p)], p) >= 0,
    decreases set.len(),
{
    if set.len() > 0 && path_order(set[0], p) < 0 {
        let rest = set.drop_first();
        lemma_insert_pos(rest, p);
        assert forall|i: int| 0 <= i < insert_pos(set, p) implies path_order(#[trigger] set[i], p) < 0 by {
            if i > 0 {
                assert(set[i] == rest[i - 1]);
            }
        }
        if insert_pos(set, p) < set.len() {
            assert(set[insert_pos(set, p)] == rest[insert_pos(rest, p)]);
        }
    }
}

/// `set_insert` keeps a sorted sequence sorted.
proof fn lemma_set_insert_sorted(set: Seq<Seq<char>>, p: Seq<char>)
    requires
        path_sorted(set),
    ensures
        path_sorted(set_insert(set, p)),
{
    lemma_insert_pos(set, p);
    let k = insert_pos(set, p);
    let r = set_insert(set, p);
    if !(k < set.len() && path_order(set[k], p) == 0) {
        assert(r[k] == p);
        assert forall|i: int, j: int| 0 <= i < j < r.len() implies path_order(#[trigger] r[i], #[trigger] r[j]) < 0 by {
            if j < k {
                assert(r[i] == set[i] && r[j] == set[j]);
            } else if j == k {
                assert(r[i] == set[i]);
            } else if i == k {
                assert(r[j] == set[j - 1]);
                lemma_path_order_antisym(set[k], p);
                if j - 1 > k {
                    assert(path_order(set[k], set[j - 1]) < 0);
                    lemma_path_order_trans(p, set[k], set[j - 1]);
                }
            } else if i < k {
                assert(r[i] == set[i] && r[j] == set[j - 1]);
                lemma_path_order_antisym(set[k], p);
                if j - 1 > k {
                    assert(path_order(set[k], set[j - 1]) < 0);
                    lemma_path_order_trans(p, set[k], set[j - 1]);
                }
                lemma_path_order_trans(set[i], p, set[j - 1]);
            } else {
                assert(r[i] == set[i - 1] && r[j] == set[j - 1]);
            }
        }
    }
}

/// What `set_insert` keeps and adds: every element stays, and the result
/// holds `p` or an element equal to it as a path, and nothing else.
proof fn lemma_set_insert_members(set: Seq<Seq<char>>, p: Seq<char>)
    ensures
        forall|i: int| 0 <= i < set.len() ==> set_insert(set, p).contains(#[trigger] set[i]),
        forall|i: int| 0 <= i < set_insert(set, p).len() ==> (#[trigger] set_insert(set, p)[i] == p || set.contains(set_insert(set, p)[i])),
        exists|i: int| 0 <= i < set_insert(set, p).len() && path_order(#[trigger] set_insert(set, p)[i], p) == 0,
{
    lemma_insert_pos(set, p);
    let k = insert_pos(set, p);
    let r = set_insert(set, p);
    if k < set.len() && path_order(set[k], p) == 0 {
        assert(r[k] == set[k]);
        assert forall|i: int| 0 <= i < set.len() implies r.contains(#[trigger] set[i]) by {
            assert(r[i] == set[i]);
        }
        assert forall|i: int| 0 <= i < r.len() implies (#[trigger] r[i] == p || set.contains(r[i])) by {
            assert(set[i] == r[i]);
        }
    } else {
        assert(r[k] == p);
        lemma_path_order_antisym(p, p);
        assert forall|i: int| 0 <= i < set.len() implies r.contains(#[trigger] set[i]) by {
            if i < k {
                assert(r[i] == set[i]);
            } else {
                assert(r[i + 1] == set[i]);
            }
        }
        assert forall|i: int| 0 <= i < r.len() implies (#[trigger] r[i] == p || set.contains(r[i])) by {
            if i < k {
                assert(set[i] == r[i]);
            } else if i > k {
                assert(set[i - 1] == r[i]);
            }
        }
    }
}

proof fn lemma_dirty_paths_sorted(entries: Seq<(Seq<char>, u32)>)
    ensures
        path_sorted(spec_dirty_paths(entries)),
    decreases entries.len(),
{
    if entries.len() > 0 {
        lemma_dirty_paths_sorted(entries.drop_last());
        if is_reported(entries.last().1) {
            lemma_set_insert_sorted(spec_dirty_paths(entries.drop_last()), entries.last().0);
        }
    }
}

/// `p` is the path of a reported entry of `entries`.
pub open spec fn from_reported(entries: Seq<(Seq<char>, u32)>, p: Seq<char>) -> bool {
    exists|j: int| 0 <= j < entries.len() && is_reported(entries[j].1) && #[trigger] entries[j].0 == p
}

/// `paths` holds `p`, or a path that `Path` holds equal to it.
pub open spec fn listed(paths: Seq<Seq<char>>, p: Seq<char>) -> bool {
    exists|i: int| 0 <= i < paths.len() && path_order(#[trigger] paths[i], p) == 0
}

proof fn lemma_dirty_paths_sources(entries: Seq<(Seq<char>, u32)>)
    ensures
        forall|i: int| 0 <= i < spec_dirty_paths(entries).len()
            ==> from_reported(entries, #[trigger] spec_dirty_paths(entries)[i]),
    decreases entries.len(),
{
    if entries.len() > 0 {
        let front = entries.drop_last();
        let prev = spec_dirty_paths(front);
        let r = spec_dirty_paths(entries);
        let last = entries.last();
        lemma_dirty_paths_sources(front);
        if is_reported(last.1) {
            lemma_set_insert_members(prev, last.0);
        }
        assert forall|i: int| 0 <= i < r.len() implies from_reported(entries, #[trigger] r[i]) by {
            if is_reported(last.1) && r[i] == last.0 {
                assert(entries[entries.len() - 1].0 == r[i]);
            } else {
                assert(prev.contains(r[i]));
                let m = choose|m: int| 0 <= m < prev.len() && prev[m] == r[i];
                assert(from_reported(front, prev[m]));
                let j = choose|j: int| 0 <= j < front.len() && is_reported(front[j].1) && #[trigger] front[j].0 == prev[m];
                assert(entries[j] == front[j]);
            }
        }
    }
}

proof fn lemma_dirty_paths_cover(entries: Seq<(Seq<char>, u32)>)
    ensures
        forall|j: int| 0 <= j < entries.len() && is_reported(entries[j].1)
            ==> listed(spec_dirty_paths(entries), #[trigger] entries[j].0),
    decreases entries.len(),
{
    if entries.len() > 0 {
        let front = entries.drop_last();
        let prev = spec_dirty_paths(front);
        let r = spec_dirty_paths(entries);
        let last = entries.last();
        lemma_dirty_paths_cover(front);
        if is_reported(last.1) {
            lemma_set_insert_members(prev, last.0);
        }
        assert forall|j: int| 0 <= j < entries.len() && is_reported(entries[j].1)
            implies listed(r, #[trigger] entries[j].0) by {
            if j < entries.len() - 1 {
                assert(entries[j] == front[j]);
                assert(listed(prev, front[j].0));
                let m = choose|m: int| 0 <= m < prev.len() && path_order(#[trigger] prev[m], front[j].0) == 0;
                if is_reported(last.1) {
                    assert(r.contains(prev[m]));
                    let i = choose|i: int| 0 <= i < r.len() && r[i] == prev[m];
                    assert(path_order(r[i], entries[j].0) == 0);
                } else {
                    assert(path_order(r[m], entries[j].0) == 0);
                }
            }
        }
    }
}

/// The dirty paths of `entries` come each once, in increasing path order;
/// each is the path of a reported entry, and the path of each reported
/// entry is among them (as a path: up to `Path` equality).
pub proof fn lemma_dirty_paths(entries: Seq<(Seq<char>, u32)>)
    ensures
        path_sorted(spec_dirty_paths(entries)),
        forall|i: int| 0 <= i < spec_dirty_paths(entries).len()
            ==> from_reported(entries, #[trigger] spec_dirty_paths(entries)[i]),
        forall|j: int| 0 <= j < entries.len() && is_reported(entries[j].1)
            ==> listed(spec_dirty_paths(entries), #[trigger] entries[j].0),
{
    lemma_dirty_paths_sorted(entries);
    lemma_dirty_paths_sources(entries);
    lemma_dirty_paths_cover(entries);
}

fn text_compare(a: &String, b: &String) -> (c: i8)
    ensures
        c == text_order(a@, b@),
{
    let x = chars_of(a.as_str());
    let y = chars_of(b.as_str());
    let mut i: usize = 0;
    proof {
        assert(x@.skip(0) =~= x@);
        assert(y@.skip(0) =~= y@);
    }
    while i < x.len() && i < y.len()
        invariant
            x@ == a@,
            y@ == b@,
            i <= x@.len(),
            i <= y@.len(),
            text_order(a@, b@) == text_order(x@.skip(i as int), y@.skip(i as int)),
        decreases x@.len() - i,
    {
        let cx = x[i];
        let cy = y[i];
        proof {
            assert(x@.skip(i as int)[0] == cx);
            assert(y@.skip(i as int)[0] == cy);
            assert(x@.skip(i as int).drop_first() =~= x@.skip(i + 1));
            assert(y@.skip(i as int).drop_first() =~= y@.skip(i + 1));
        }
        if (cx as u32) < (cy as u32) {
            return -1;
        }
        if (cx as u32) > (cy as u32) {
            return 1;
        }
        i = i + 1;
    }
    if i < x.len() {
        1
    } else if i < y.len() {
        -1
    } else {
        0
    }
}

fn rank(c: &String) -> (r: u8)
    ensures
        r == component_rank(c@),
{
    let v = chars_of(c.as_str());
    if v.len() == 1 && v[0] == '/' {
        proof {
            assert(c@ =~= seq!['/']);
        }
        0
    } else if v.len() == 1 && v[0] == '.' {
        proof {
            assert(c@ =~= seq!['.']);
        }
        1
    } else if v.len() == 2 && v[0] == '.' && v[1] == '.' {
        proof {
            assert(c@ =~= seq!['.', '.']);
        }
        2
    } else {
        proof {
            if c@ == seq!['/'] || c@ == seq!['.'] {
                assert(c@.len() == 1);
            }
            if c@ == seq!['.', '.'] {
                assert(c@.len() == 2);
            }
        }
        3
    }
}

fn component_compare(a: &String, b: &String) -> (c: i8)
    ensures
        c == component_order(a@, b@),
{
    let ra = rank(a);
    let rb = rank(b);
    if ra < rb {
        -1
    } else if ra > rb {
        1
    } else if ra == 3 {
        text_compare(a, b)
    } else {
        0
    }
}

/// Compares two paths as `Path` does.
pub fn path_compare(a: &String, b: &String) -> (c: i8)
    ensures
        c == path_order(a@, b@),
{
    let x = components(a);
    let y = components(b);
    let ghost xs = names_of(x@);
    let ghost ys = names_of(y@);
    let mut i: usize = 0;
    proof {
        assert(xs.skip(0) =~= xs);
        assert(ys.skip(0) =~= ys);
    }
    while i < x.len() && i < y.len()
        invariant
            xs == names_of(x@),
            ys == names_of(y@),
            xs == spec_components(a@),
            ys == spec_components(b@),
            i <= x@.len(),
            i <= y@.len(),
            path_order(a@, b@) == components_order(xs.skip(i as int), ys.skip(i as int)),
        decreases x@.len() - i,
    {
        proof {
            assert(xs.skip(i as int)[0] == x@[i as int]@);
            assert(ys.skip(i as int)[0] == y@[i as int]@);
            assert(xs.skip(i as int).drop_first() =~= xs.skip(i + 1));
            assert(ys.skip(i as int).drop_first() =~= ys.skip(i + 1));
        }
        let c = component_compare(&x[i], &y[i]);
        if c != 0 {
            return c;
        }
        i = i + 1;
    }
    if i < x.len() {
        1
    } else if i < y.len() {
        -1
    } else {
        0
    }
}

/// The dirty paths among Git's status entries (path and status bits), each
/// once, ordered as paths.
pub fn dirty_paths(entries: &Vec<(String, u32)>) -> (v: Vec<String>)
    ensures
        names_of(v@) == spec_dirty_paths(entries@.map_values(|e: (String, u32)| (e.0@, e.1))),
{
    let ghost es = entries@.map_values(|e: (String, u32)| (e.0@, e.1));
    let mut set: Vec<String> = Vec::new();
    let mut i: usize = 0;
    proof {
        assert(es.take(0) =~= Seq::<(Seq<char>, u32)>::empty());
        assert(names_of(set@) =~= Seq::<Seq<char>>::empty());
    }
    while i < entries.len()
        invariant
            i <= entries@.len(),
            es == entries@.map_values(|e: (String, u32)| (e.0@, e.1)),
            names_of(set@) == spec_dirty_paths(es.take(i as int)),
        decreases entries@.len() - i,
    {
        proof {
            assert(es.take(i + 1).drop_last() =~= es.take(i as int));
            assert(es.take(i + 1).last() == es[i as int]);
        }
        let bits = entries[i].1;
        if bits != 0 && (bits & STATUS_IGNORED) != STATUS_IGNORED {
            let p = &entries[i].0;
            let ghost s = names_of(set@);
            // Position: before the first element not smaller than `p`.
            let mut k: usize = 0;
            let mut found = false;
            proof {
                assert(s.skip(0) =~= s);
            }
            while k < set.len() && !found
                invariant
                    k <= set@.len(),
                    s == names_of(set@),
                    !found ==> insert_pos(s, p@) == k + insert_pos(s.skip(k as int), p@),
                    found ==> insert_pos(s, p@) == k && k < set@.len(),
                decreases set@.len() - k + (if found { 0int } else { 1int }),
            {
                proof {
                    assert(s.skip(k as int)[0] == s[k as int]);
                    assert(s.skip(k as int).drop_first() =~= s.skip(k + 1));
                }
                if path_compare(&set[k], p) >= 0 {
                    found = true;
                } else {
                    k = k + 1;
                }
            }
            proof {
                if !found {
                    assert(s.skip(k as int) =~= Seq::<Seq<char>>::empty());
                }
                lemma_insert_pos(s, p@);
            }
            let duplicate = found && path_compare(&set[k], p) == 0;
            if !duplicate {
                set.insert(k, p.clone());
                proof {
                    assert(names_of(set@) =~= s.insert(k as int, p@));
                }
            }
        }
        i = i + 1;
    }
    proof {
        assert(es.take(entries@.len() as int) =~= es);
    }
    set
}

} // verus!
