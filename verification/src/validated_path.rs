//! Validation of repository paths received over IPC.
//!
//! Paths are POSIX paths held as text. A path is accepted when it is not
//! empty, not longer than [`MAX_PATH_LENGTH`] bytes, does not climb above
//! its own root with `..`, and, once normalized, holds no NUL byte, no
//! `${` or backtick and no control character.
use vstd::prelude::*;

use crate::pathname::{
    join_segments, lemma_join_first, lemma_join_split, lemma_names_len_front, lemma_split_concat,
    lemma_split_join, lemma_split_no_slash, lemma_split_nonempty, lemma_split_step,
    lemma_utf8_len_add, lemma_utf8_len_join, lemma_utf8_len_slash, names_len, split_segments,
    utf8_len, keep_named, spec_components,
};
use crate::ipc::DaemonCommand;
use crate::text::{chars_of, names_of};

verus! {

broadcast use vstd::string::group_string_axioms;

/// Maximum allowed path length in bytes.
pub const MAX_PATH_LENGTH: usize = 4096;

/// Validated repository path that has been sanitized and checked.
#[derive(Debug)]
pub struct ValidatedPath(String);

/// Errors that can occur during path validation.
#[derive(Debug, PartialEq, Eq, Structural)]
pub enum PathValidationError {
    Empty,
    TooLong { len: usize, max: usize },
    ContainsNull,
    SuspiciousPattern,
    PathTraversal,
}

impl PathValidationError {
    pub open spec fn spec_message(&self) -> Seq<char> {
        match self {
            PathValidationError::Empty => "path is empty"@,
            PathValidationError::TooLong { len, max } => "path too long: "@ + crate::text::decimal(
                *len as nat,
            ) + " bytes exceeds maximum of "@ + crate::text::decimal(*max as nat) + " bytes"@,
            PathValidationError::ContainsNull => "path contains null byte"@,
            PathValidationError::SuspiciousPattern =>
                "path contains suspicious pattern (escape sequences or control characters)"@,
            PathValidationError::PathTraversal => "path traversal outside repository root"@,
        }
    }

    /// The error's human-readable text.
    pub fn message(&self) -> (s: String)
        ensures
            s@ == self.spec_message(),
    {
        match self {
            PathValidationError::Empty => String::from_str("path is empty"),
            PathValidationError::TooLong { len, max } => {
                let mut s = String::from_str("path too long: ");
                crate::text::push_decimal(&mut s, *len as u64);
                s.append(" bytes exceeds maximum of ");
                crate::text::push_decimal(&mut s, *max as u64);
                s.append(" bytes");
                s
            },
            PathValidationError::ContainsNull => String::from_str("path contains null byte"),
            PathValidationError::SuspiciousPattern => String::from_str(
                "path contains suspicious pattern (escape sequences or control characters)",
            ),
            PathValidationError::PathTraversal => String::from_str(
                "path traversal outside repository root",
            ),
        }
    }
}

/// Empty pieces (repeated or trailing separators) and `.` name no directory.
pub open spec fn is_skipped_segment(seg: Seq<char>) -> bool {
    seg.len() == 0 || seg =~= seq!['.']
}

pub open spec fn is_parent_segment(seg: Seq<char>) -> bool {
    seg =~= seq!['.', '.']
}

/// One segment applied to the names resolved so far.
pub open spec fn resolve_step(stack: Option<Seq<Seq<char>>>, seg: Seq<char>) -> Option<
    Seq<Seq<char>>,
> {
    match stack {
        None => None,
        Some(stack) => if is_skipped_segment(seg) {
            Some(stack)
        } else if is_parent_segment(seg) {
            if stack.len() == 0 {
                None
            } else {
                Some(stack.drop_last())
            }
        } else {
            Some(stack.push(seg))
        },
    }
}

/// Resolves `.` and `..` lexically. `None` when a `..` would climb above the
/// start of the path.
pub open spec fn resolve_segments(segs: Seq<Seq<char>>) -> Option<Seq<Seq<char>>>
    decreases segs.len(),
{
    if segs.len() == 0 {
        Some(Seq::<Seq<char>>::empty())
    } else {
        resolve_step(resolve_segments(segs.drop_last()), segs.last())
    }
}



pub open spec fn has_root(s: Seq<char>) -> bool {
    s.len() > 0 && s[0] == '/'
}

/// The lexically normalized form of `s`, or `None` on traversal above the root.
pub open spec fn spec_normalize_path(s: Seq<char>) -> Option<Seq<char>> {
    match resolve_segments(split_segments(s)) {
        None => None,
        Some(stack) => Some(
            if has_root(s) {
                seq!['/'] + join_segments(stack)
            } else {
                join_segments(stack)
            },
        ),
    }
}

/// Unicode general category Cc (C0 and C1 control codes).
pub open spec fn is_control_char(c: char) -> bool {
    (c as u32) <= 0x1f || (0x7f <= (c as u32) && (c as u32) <= 0x9f)
}

pub open spec fn contains_char(s: Seq<char>, c: char) -> bool {
    exists|i: int| 0 <= i < s.len() && s[i] == c
}

/// `${` starts at position `i` of `s`.
pub open spec fn opens_expansion(s: Seq<char>, i: int) -> bool {
    s[i] == '$' && s[i + 1] == '{'
}

/// `${`, a backtick, or a control character anywhere in `s`.
pub open spec fn spec_contains_suspicious_patterns(s: Seq<char>) -> bool {
    ||| exists|i: int| 0 <= i < s.len() - 1 && #[trigger] opens_expansion(s, i)
    ||| contains_char(s, '`')
    ||| exists|i: int| 0 <= i < s.len() && is_control_char(#[trigger] s[i])
}

/// What `ValidatedPath::new` returns for the path `s`.
pub open spec fn spec_validate(s: Seq<char>) -> Result<Seq<char>, PathValidationError> {
    let byte_len = vstd::utf8::encode_utf8(s).len() as usize;
    if s.len() == 0 {
        Err(PathValidationError::Empty)
    } else if byte_len > MAX_PATH_LENGTH {
        Err(PathValidationError::TooLong { len: byte_len, max: MAX_PATH_LENGTH })
    } else {
        match spec_normalize_path(s) {
            None => Err(PathValidationError::PathTraversal),
            Some(n) => if contains_char(n, '\0') {
                Err(PathValidationError::ContainsNull)
            } else if spec_contains_suspicious_patterns(n) {
                Err(PathValidationError::SuspiciousPattern)
            } else {
                Ok(n)
            },
        }
    }
}

impl View for ValidatedPath {
    type V = Seq<char>;

    closed spec fn view(&self) -> Seq<char> {
        self.0@
    }
}

impl ValidatedPath {
    /// Validates and normalizes `path`.
    pub fn new(path: String) -> (res: Result<Self, PathValidationError>)
        ensures
            match spec_validate(path@) {
                Ok(n) => res matches Ok(v) && v@ == n,
                Err(e) => res == Err::<Self, PathValidationError>(e),
            },
    {
        if path.as_str().is_empty() {
            return Err(PathValidationError::Empty);
        }
        let byte_len = path.as_str().len();
        if byte_len > MAX_PATH_LENGTH {
            return Err(PathValidationError::TooLong { len: byte_len, max: MAX_PATH_LENGTH });
        }
        let normalized = match normalize_path(&path) {
            Ok(n) => n,
            Err(e) => return Err(e),
        };
        if contains_null(&normalized) {
            return Err(PathValidationError::ContainsNull);
        }
        if contains_suspicious_patterns(&normalized) {
            return Err(PathValidationError::SuspiciousPattern);
        }
        Ok(ValidatedPath(normalized))
    }

    /// The validated path.
    pub fn as_path(&self) -> (p: &String)
        ensures
            p@ == self@,
    {
        &self.0
    }

    /// The path as text, as `{}` displays it.
    pub fn to_string(&self) -> (s: String)
        ensures
            s@ == self@,
    {
        self.0.clone()
    }

    /// Consumes the value and returns the inner path.
    pub fn into_inner(self) -> (p: String)
        ensures
            p@ == self@,
    {
        self.0
    }
}

/// Applies the segment `chars[start..end]` of `path` to `stack`; false when a
/// `..` finds nothing left to remove.
fn apply_segment(
    path: &String,
    chars: &Vec<char>,
    start: usize,
    end: usize,
    stack: &mut Vec<String>,
) -> (ok: bool)
    requires
        chars@ == path@,
        start <= end <= chars@.len(),
    ensures
        ok ==> resolve_step(Some(names_of(old(stack)@)), path@.subrange(start as int, end as int))
            == Some(names_of(final(stack)@)),
        !ok ==> resolve_step(Some(names_of(old(stack)@)), path@.subrange(start as int, end as int))
            == None::<Seq<Seq<char>>>,
{
    let ghost seg = path@.subrange(start as int, end as int);
    let len = end - start;
    let is_parent = len == 2 && chars[start] == '.' && chars[start + 1] == '.';
    let is_skip = len == 0 || (len == 1 && chars[start] == '.');
    proof {
        assert(seg.len() == len);
        if len == 2 {
            assert(seg[0] == chars@[start as int]);
            assert(seg[1] == chars@[start + 1]);
        }
        if len == 1 {
            assert(seg[0] == chars@[start as int]);
        }
        assert(is_parent <==> is_parent_segment(seg));
        assert(is_skip <==> is_skipped_segment(seg));
    }
    if is_skip {
        true
    } else if is_parent {
        if stack.len() == 0 {
            false
        } else {
            stack.pop();
            proof {
                assert(names_of(stack@) =~= names_of(old(stack)@).drop_last());
            }
            true
        }
    } else {
        let piece = path.as_str().substring_char(start, end);
        let owned = piece.to_string();
        proof {
            assert(vstd::string::to_string_from_display_ensures::<str>(piece, owned));
        }
        stack.push(owned);
        proof {
            assert(names_of(stack@) =~= names_of(old(stack)@).push(seg));
        }
        true
    }
}

/// Lexically resolves `.` and `..` in `path`.
fn normalize_path(path: &String) -> (res: Result<String, PathValidationError>)
    ensures
        match spec_normalize_path(path@) {
            Some(n) => res matches Ok(r) && r@ == n,
            None => res == Err::<String, PathValidationError>(PathValidationError::PathTraversal),
        },
{
    let chars = chars_of(path.as_str());
    let n = chars.len();
    let ghost s = path@;
    let mut stack: Vec<String> = Vec::new();
    let mut start: usize = 0;
    let mut i: usize = 0;
    proof {
        assert(s.take(0) =~= Seq::<char>::empty());
        assert(split_segments(s.take(0)) =~= seq![Seq::<char>::empty()]);
        assert(s.subrange(0, 0) =~= Seq::<char>::empty());
        assert(names_of(stack@) =~= Seq::<Seq<char>>::empty());
    }
    // `chars[start..i]` is the segment still open; each separator closes it.
    while i < n
        invariant
            n == chars@.len(),
            chars@ == s,
            s == path@,
            start <= i <= n,
            split_segments(s.take(i as int)).last() =~= s.subrange(start as int, i as int),
            resolve_segments(split_segments(s.take(i as int)).drop_last()) == Some(
                names_of(stack@),
            ),
        decreases n - i,
    {
        proof {
            lemma_split_step(s, i as int, start as int);
        }
        if chars[i] == '/' {
            let ghost segs = split_segments(s.take(i as int));
            proof {
                lemma_split_nonempty(s.take(i as int));
            }
            let ok = apply_segment(path, &chars, start, i, &mut stack);
            if !ok {
                proof {
                    assert(split_segments(s.take(i + 1)).drop_last() =~= segs);
                    lemma_resolve_none_extends(s, i + 1);
                }
                return Err(PathValidationError::PathTraversal);
            }
            proof {
                assert(split_segments(s.take(i + 1)).drop_last() =~= segs);
                assert(s.subrange(i + 1, i + 1) =~= Seq::<char>::empty());
            }
            start = i + 1;
        }
        i = i + 1;
    }
    proof {
        assert(s.take(n as int) =~= s);
        lemma_split_nonempty(s);
    }
    let ok = apply_segment(path, &chars, start, n, &mut stack);
    if !ok {
        return Err(PathValidationError::PathTraversal);
    }
    let mut out = String::new();
    if n > 0 && chars[0] == '/' {
        out.append("/");
    }
    let ghost prefix = out@;
    proof {
        reveal_strlit("/");
        assert(prefix =~= (if has_root(s) { seq!['/'] } else { Seq::<char>::empty() }));
    }
    let mut k: usize = 0;
    while k < stack.len()
        invariant
            0 <= k <= stack@.len(),
            out@ == prefix + join_segments(names_of(stack@).take(k as int)),
        decreases stack@.len() - k,
    {
        let ghost names = names_of(stack@);
        proof {
            assert(names.take(k + 1).drop_last() =~= names.take(k as int));
            assert(names.take(k + 1).last() == stack@[k as int]@);
        }
        if k > 0 {
            out.append("/");
            proof {
                reveal_strlit("/");
            }
        }
        out.append(stack[k].as_str());
        proof {
            if k == 0 {
                assert(names.take(1) =~= seq![stack@[0]@]);
            }
        }
        k = k + 1;
    }
    proof {
        let names = names_of(stack@);
        assert(names.take(stack@.len() as int) =~= names);
        if has_root(s) {
            assert(out@ =~= seq!['/'] + join_segments(names));
        } else {
            assert(out@ =~= join_segments(names));
        }
    }
    Ok(out)
}

/// Once the completed segments of a prefix fail to resolve, the whole path does.
proof fn lemma_resolve_none_extends(s: Seq<char>, j: int)
    requires
        0 <= j <= s.len(),
        resolve_segments(split_segments(s.take(j)).drop_last()) == None::<Seq<Seq<char>>>,
    ensures
        resolve_segments(split_segments(s)) == None::<Seq<Seq<char>>>,
    decreases s.len() - j,
{
    let p = s.take(j);
    lemma_split_nonempty(p);
    if j == s.len() {
        assert(p =~= s);
    } else {
        let q = s.take(j + 1);
        assert(q.drop_last() =~= p);
        let sp = split_segments(p);
        let sq = split_segments(q);
        if s[j] == '/' {
            assert(sq.drop_last() =~= sp);
        } else {
            assert(sq.drop_last() =~= sp.drop_last());
        }
        lemma_resolve_none_extends(s, j + 1);
    }
}

/// True when `s` holds a NUL character.
fn contains_null(s: &String) -> (b: bool)
    ensures
        b == contains_char(s@, '\0'),
{
    let chars = chars_of(s.as_str());
    let mut i: usize = 0;
    while i < chars.len()
        invariant
            chars@ == s@,
            i <= chars@.len(),
            forall|j: int| 0 <= j < i ==> chars@[j] != '\0',
        decreases chars@.len() - i,
    {
        if chars[i] == '\0' {
            return true;
        }
        i = i + 1;
    }
    false
}

/// Checks for escape sequences, backticks and control characters.
fn contains_suspicious_patterns(s: &String) -> (b: bool)
    ensures
        b == spec_contains_suspicious_patterns(s@),
{
    let chars = chars_of(s.as_str());
    let n = chars.len();
    let mut i: usize = 0;
    while i < n
        invariant
            n == chars@.len(),
            chars@ == s@,
            i <= n,
            forall|j: int| 0 <= j < i ==> #[trigger] chars@[j] != '`',
            forall|j: int| 0 <= j < i ==> !is_control_char(#[trigger] chars@[j]),
            forall|j: int| 0 <= j < i && j + 1 < n ==> !#[trigger] opens_expansion(chars@, j),
        decreases n - i,
    {
        let c = chars[i];
        if c == '`' {
            assert(chars@[i as int] == '`');
            return true;
        }
        let code = c as u32;
        if code <= 0x1f || (0x7f <= code && code <= 0x9f) {
            assert(is_control_char(chars@[i as int]));
            return true;
        }
        if c == '$' && i + 1 < n && chars[i + 1] == '{' {
            assert(opens_expansion(chars@, i as int));
            return true;
        }
        i = i + 1;
    }
    false
}

/// A name that normalization keeps as it is.
pub open spec fn is_plain(seg: Seq<char>) -> bool {
    !is_skipped_segment(seg) && !is_parent_segment(seg) && crate::pathname::has_no_slash(seg)
}

proof fn lemma_resolve_output(segs: Seq<Seq<char>>)
    requires
        forall|i: int| 0 <= i < segs.len() ==> crate::pathname::has_no_slash(#[trigger] segs[i]),
    ensures
        resolve_segments(segs) matches Some(st) ==> {
            &&& forall|i: int| 0 <= i < st.len() ==> is_plain(#[trigger] st[i])
            &&& crate::pathname::names_len(st) + st.len() <= crate::pathname::names_len(segs)
                + segs.len()
        },
    decreases segs.len(),
{
    if segs.len() > 0 {
        let d = segs.drop_last();
        assert forall|i: int| 0 <= i < d.len() implies crate::pathname::has_no_slash(#[trigger] d[i]) by {
            assert(d[i] == segs[i]);
        }
        lemma_resolve_output(d);
        assert(crate::pathname::has_no_slash(segs[segs.len() - 1]));
        match resolve_segments(d) {
            None => {},
            Some(st) => {
                let seg = segs.last();
                if is_skipped_segment(seg) {
                } else if is_parent_segment(seg) {
                    if st.len() > 0 {
                        let st2 = st.drop_last();
                        assert forall|i: int| 0 <= i < st2.len() implies is_plain(#[trigger] st2[i]) by {
                            assert(st2[i] == st[i]);
                        }
                    }
                } else {
                    let st2 = st.push(seg);
                    assert(st2.drop_last() =~= st);
                    assert forall|i: int| 0 <= i < st2.len() implies is_plain(#[trigger] st2[i]) by {
                        if i < st.len() {
                            assert(st2[i] == st[i]);
                        }
                    }
                }
            },
        }
    }
}

proof fn lemma_resolve_plain(segs: Seq<Seq<char>>)
    requires
        forall|i: int| 0 <= i < segs.len() ==> is_plain(#[trigger] segs[i]),
    ensures
        resolve_segments(segs) == Some(segs),
    decreases segs.len(),
{
    if segs.len() > 0 {
        let d = segs.drop_last();
        assert forall|i: int| 0 <= i < d.len() implies is_plain(#[trigger] d[i]) by {
            assert(d[i] == segs[i]);
        }
        lemma_resolve_plain(d);
        assert(is_plain(segs[segs.len() - 1]));
        assert(d.push(segs.last()) =~= segs);
    }
}

proof fn lemma_resolve_skip_root(segs: Seq<Seq<char>>)
    ensures
        resolve_segments(seq![Seq::<char>::empty()] + segs) == resolve_segments(segs),
    decreases segs.len(),
{
    let e = Seq::<char>::empty();
    if segs.len() == 0 {
        assert(seq![e] + segs =~= seq![e]);
        assert(seq![e].drop_last() =~= Seq::<Seq<char>>::empty());
        assert(seq![e].last() == e);
        assert(is_skipped_segment(e));
        assert(resolve_segments(Seq::<Seq<char>>::empty()) == Some(Seq::<Seq<char>>::empty()));
    } else {
        lemma_resolve_skip_root(segs.drop_last());
        assert((seq![e] + segs).drop_last() =~= seq![e] + segs.drop_last());
        assert((seq![e] + segs).last() == segs.last());
    }
}

/// No component is `.` or `..`.
pub open spec fn names_only(comps: Seq<Seq<char>>) -> bool {
    forall|i: int| 0 <= i < comps.len() ==> !is_skipped_segment(#[trigger] comps[i]) && !is_parent_segment(comps[i])
}

proof fn lemma_keep_named_plain(st: Seq<Seq<char>>)
    requires
        forall|i: int| 0 <= i < st.len() ==> is_plain(#[trigger] st[i]),
    ensures
        keep_named(st) == st,
    decreases st.len(),
{
    if st.len() > 0 {
        let d = st.drop_last();
        assert forall|i: int| 0 <= i < d.len() implies is_plain(#[trigger] d[i]) by {
            assert(d[i] == st[i]);
        }
        lemma_keep_named_plain(d);
        assert(is_plain(st[st.len() - 1]));
        assert(d.push(st.last()) =~= st);
    }
}

proof fn lemma_keep_named_front_empty(s: Seq<Seq<char>>)
    ensures
        keep_named(seq![Seq::<char>::empty()] + s) == keep_named(s),
    decreases s.len(),
{
    let e = Seq::<char>::empty();
    assert(crate::pathname::is_empty_or_dot(e));
    if s.len() == 0 {
        assert(seq![e] + s =~= seq![e]);
        assert(seq![e].drop_last() =~= Seq::<Seq<char>>::empty());
        assert(seq![e].last() == e);
        assert(keep_named(Seq::<Seq<char>>::empty()) == Seq::<Seq<char>>::empty());
        assert(keep_named(seq![e]) == keep_named(Seq::<Seq<char>>::empty()));
    } else {
        lemma_keep_named_front_empty(s.drop_last());
        assert((seq![e] + s).drop_last() =~= seq![e] + s.drop_last());
        assert((seq![e] + s).last() == s.last());
    }
}

/// A path that validates to a non-empty path `n` has a normal form that
/// validates to itself: storing a validated path and validating it again
/// (as reading it back does) gives the same path. (A path such as `a/..`
/// normalizes to the empty path, which is rejected.) Every text in memory
/// has at most `usize::MAX` bytes.
pub proof fn lemma_validate_idempotent(p: Seq<char>, n: Seq<char>)
    requires
        spec_validate(p) == Ok::<Seq<char>, PathValidationError>(n),
        n.len() > 0,
        vstd::utf8::encode_utf8(p).len() <= usize::MAX,
    ensures
        spec_validate(n) == Ok::<Seq<char>, PathValidationError>(n),
        utf8_len(n) <= utf8_len(p),
        names_only(spec_components(n)),
{
    let segs = split_segments(p);
    lemma_split_nonempty(p);
    lemma_split_no_slash(p);
    lemma_resolve_output(segs);
    lemma_join_split(p);
    lemma_utf8_len_join(segs);
    assert(spec_normalize_path(p) == Some(n));
    assert(utf8_len(p) <= 4096);
    let st = resolve_segments(segs)->0;
    assert(resolve_segments(segs) == Some(st));
    assert(names_len(st) + st.len() <= names_len(segs) + segs.len());
    assert(utf8_len(p) == names_len(segs) + segs.len() - 1);
    assert(st.len() > 0 ==> st[0].len() > 0) by {
        if st.len() > 0 {
            assert(is_plain(st[0]));
        }
    }
    assert forall|i: int| 0 <= i < st.len() implies crate::pathname::has_no_slash(#[trigger] st[i]) by {
        assert(is_plain(st[i]));
    }
    lemma_resolve_plain(st);
    let e = Seq::<char>::empty();
    if has_root(p) {
        let rest = p.drop_first();
        assert(p =~= e + seq!['/'] + rest);
        lemma_split_concat(e, rest);
        let r = split_segments(rest);
        assert(split_segments(e) == seq![e]);
        assert(segs == seq![e] + r);
        lemma_resolve_skip_root(r);
        lemma_names_len_front(e, r);
        lemma_split_no_slash(rest);
        lemma_split_nonempty(rest);
        lemma_resolve_output(r);
        assert(utf8_len(e) == 0);
        assert(resolve_segments(r) == Some(st));
        assert(names_len(segs) == names_len(r));
        assert(n == seq!['/'] + join_segments(st));
        if st.len() == 0 {
            assert(join_segments(st) =~= e);
            assert(n =~= seq!['/']);
            assert(n =~= e + seq!['/'] + e);
            lemma_split_concat(e, e);
            assert(split_segments(n) =~= seq![e] + seq![e]);
            lemma_resolve_skip_root(seq![e]);
            assert(seq![e].drop_last() =~= Seq::<Seq<char>>::empty());
            assert(seq![e].last() == e);
            assert(resolve_segments(seq![e]) == Some(Seq::<Seq<char>>::empty()));
            assert(resolve_segments(split_segments(n)) == Some(Seq::<Seq<char>>::empty()));
            assert(has_root(n));
            assert(spec_normalize_path(n) == Some(n));
            lemma_utf8_len_slash();
            assert(utf8_len(n) == 1);
            assert(segs.len() >= 1);
            lemma_keep_named_front_empty(seq![e]);
            lemma_keep_named_front_empty(Seq::<Seq<char>>::empty());
            assert(seq![e] + Seq::<Seq<char>>::empty() =~= seq![e]);
            assert(spec_components(n) =~= seq![seq!['/']]);
        } else {
            let j = join_segments(st);
            assert(n =~= e + seq!['/'] + j);
            lemma_split_concat(e, j);
            lemma_split_join(st);
            assert(split_segments(n) == seq![e] + st);
            lemma_resolve_skip_root(st);
            assert(resolve_segments(split_segments(n)) == Some(st));
            assert(has_root(n));
            assert(spec_normalize_path(n) == Some(n));
            lemma_utf8_len_join(st);
            lemma_utf8_len_add(seq!['/'], j);
            lemma_utf8_len_slash();
            assert(utf8_len(n) == 1 + names_len(st) + st.len() - 1);
            lemma_keep_named_front_empty(st);
            lemma_keep_named_plain(st);
            assert(spec_components(n) =~= seq![seq!['/']] + st);
        }
    } else {
        assert(n == join_segments(st));
        assert(st.len() > 0) by {
            if st.len() == 0 {
                assert(join_segments(st) =~= e);
            }
        }
        lemma_split_join(st);
        lemma_utf8_len_join(st);
        lemma_join_first(st);
        assert(!has_root(n));
        assert(resolve_segments(split_segments(n)) == Some(st));
        assert(spec_normalize_path(n) == Some(n));
        lemma_keep_named_plain(st);
        assert(is_plain(st[0]));
        assert(spec_components(n) =~= st);
    }
    assert(utf8_len(n) <= utf8_len(p));
}

/// What validation lets through: the accepted path, in its normal form,
/// fits in [`MAX_PATH_LENGTH`] bytes, has no `.` or `..` component, and holds
/// no NUL byte, no `${`, no backtick and no control character. It is empty
/// only for a relative path that resolves to nothing, such as `.` or `a/..`.
/// Every text in memory has at most `usize::MAX` bytes.
pub proof fn lemma_validated_form(p: Seq<char>, n: Seq<char>)
    requires
        spec_validate(p) == Ok::<Seq<char>, PathValidationError>(n),
        vstd::utf8::encode_utf8(p).len() <= usize::MAX,
    ensures
        utf8_len(n) <= MAX_PATH_LENGTH,
        names_only(spec_components(n)),
        !contains_char(n, '\0'),
        !spec_contains_suspicious_patterns(n),
        n.len() == 0 ==> !has_root(p) && resolve_segments(split_segments(p)) == Some(
            Seq::<Seq<char>>::empty(),
        ),
{
    if n.len() > 0 {
        lemma_validate_idempotent(p, n);
    } else {
        let e = Seq::<char>::empty();
        assert(split_segments(n) == seq![e]);
        assert(seq![e].drop_last() =~= Seq::<Seq<char>>::empty());
        assert(seq![e].last() == e);
        lemma_keep_named_front_empty(Seq::<Seq<char>>::empty());
        assert(seq![e] + Seq::<Seq<char>>::empty() =~= seq![e]);
        assert(seq![e][0].len() == 0);
        assert(!(seq![e][0] =~= seq!['.']));
        assert(spec_components(n) =~= Seq::<Seq<char>>::empty());
        assert(vstd::utf8::encode_utf8(n).len() == 0);
        let st = resolve_segments(split_segments(p))->0;
        if has_root(p) {
            assert((seq!['/'] + join_segments(st)).len() > 0);
        } else if st.len() > 0 {
            lemma_split_nonempty(p);
            lemma_split_no_slash(p);
            lemma_resolve_output(split_segments(p));
            assert(is_plain(st[0]));
            lemma_join_first(st);
        }
    }
}

/// The repository path a command names, if it names one.
pub open spec fn command_path(c: DaemonCommand) -> Option<Seq<char>> {
    match c {
        DaemonCommand::RegisterRepo { repo_path } => Some(repo_path@),
        DaemonCommand::UnregisterRepo { repo_path } => Some(repo_path@),
        DaemonCommand::Status { repo_path, .. } => Some(repo_path@),
        DaemonCommand::QueueJob { repo_path, .. } => Some(repo_path@),
        DaemonCommand::RepoHealth { repo_path } => Some(repo_path@),
        DaemonCommand::FsMonitorSnapshot { repo_path, .. } => Some(repo_path@),
        DaemonCommand::FetchLogs { repo_path, .. } => Some(repo_path@),
        _ => None,
    }
}

/// `d` is the command `c` with its repository path replaced by `n`: the same
/// variant, and every other field the same.
pub open spec fn with_command_path(c: DaemonCommand, d: DaemonCommand, n: Seq<char>) -> bool {
    match (c, d) {
        (DaemonCommand::RegisterRepo { .. }, DaemonCommand::RegisterRepo { repo_path }) => repo_path@ == n,
        (DaemonCommand::UnregisterRepo { .. }, DaemonCommand::UnregisterRepo { repo_path }) => repo_path@
            == n,
        (
            DaemonCommand::Status { known_generation: g, .. },
            DaemonCommand::Status { repo_path, known_generation },
        ) => repo_path@ == n && known_generation == g,
        (
            DaemonCommand::QueueJob { job: j, immediate: i, .. },
            DaemonCommand::QueueJob { repo_path, job, immediate },
        ) => repo_path@ == n && job == j && immediate == i,
        (DaemonCommand::RepoHealth { .. }, DaemonCommand::RepoHealth { repo_path }) => repo_path@ == n,
        (
            DaemonCommand::FsMonitorSnapshot { last_seen_generation: g, .. },
            DaemonCommand::FsMonitorSnapshot { repo_path, last_seen_generation },
        ) => repo_path@ == n && last_seen_generation == g,
        (
            DaemonCommand::FetchLogs { limit: l, .. },
            DaemonCommand::FetchLogs { repo_path, limit },
        ) => repo_path@ == n && limit == l,
        _ => false,
    }
}

fn checked_path(path: String) -> (r: Result<String, PathValidationError>)
    ensures
        match spec_validate(path@) {
            Ok(n) => r matches Ok(p) && p@ == n,
            Err(e) => r == Err::<String, PathValidationError>(e),
        },
{
    match ValidatedPath::new(path) {
        Ok(v) => Ok(v.into_inner()),
        Err(e) => Err(e),
    }
}

/// Checks the repository path of a command received from a client, as
/// decoding a request does: a command naming an invalid path is refused
/// with the path's error; otherwise the path is replaced by its normal form
/// and the rest of the command is kept.
pub fn validate_command(c: DaemonCommand) -> (r: Result<DaemonCommand, PathValidationError>)
    ensures
        match command_path(c) {
            None => r == Ok::<DaemonCommand, PathValidationError>(c),
            Some(p) => match spec_validate(p) {
                Ok(n) => r matches Ok(d) && with_command_path(c, d, n),
                Err(e) => r == Err::<DaemonCommand, PathValidationError>(e),
            },
        },
{
    match c {
        DaemonCommand::RegisterRepo { repo_path } => match checked_path(repo_path) {
            Ok(p) => Ok(DaemonCommand::RegisterRepo { repo_path: p }),
            Err(e) => Err(e),
        },
        DaemonCommand::UnregisterRepo { repo_path } => match checked_path(repo_path) {
            Ok(p) => Ok(DaemonCommand::UnregisterRepo { repo_path: p }),
            Err(e) => Err(e),
        },
        DaemonCommand::Status { repo_path, known_generation } => match checked_path(repo_path) {
            Ok(p) => Ok(DaemonCommand::Status { repo_path: p, known_generation }),
            Err(e) => Err(e),
        },
        DaemonCommand::QueueJob { repo_path, job, immediate } => match checked_path(repo_path) {
            Ok(p) => Ok(DaemonCommand::QueueJob { repo_path: p, job, immediate }),
            Err(e) => Err(e),
        },
        DaemonCommand::RepoHealth { repo_path } => match checked_path(repo_path) {
            Ok(p) => Ok(DaemonCommand::RepoHealth { repo_path: p }),
            Err(e) => Err(e),
        },
        DaemonCommand::FsMonitorSnapshot { repo_path, last_seen_generation } => match checked_path(
            repo_path,
        ) {
            Ok(p) => Ok(DaemonCommand::FsMonitorSnapshot { repo_path: p, last_seen_generation }),
            Err(e) => Err(e),
        },
        DaemonCommand::FetchLogs { repo_path, limit } => match checked_path(repo_path) {
            Ok(p) => Ok(DaemonCommand::FetchLogs { repo_path: p, limit }),
            Err(e) => Err(e),
        },
        other => Ok(other),
    }
}

} // verus!
