//! Path arithmetic over `/`-separated path strings.
//!
//! Remote paths travel over the wire as plain strings, and the local side of
//! a transfer follows the same conventions, so everything here is defined on
//! `Seq<char>` views of strings with `/` as the separator.

use vstd::prelude::*;

verus! {

/// Does the path end in a separator?
pub open spec fn ends_with_sep(s: Seq<char>) -> bool {
    s.len() > 0 && s.last() == '/'
}

/// Append `name` under directory `dir`, inserting a separator only when one
/// is needed: joining never doubles a trailing `/`, and joining onto the
/// empty path yields `name` itself.
pub open spec fn spec_join(dir: Seq<char>, name: Seq<char>) -> Seq<char> {
    if dir.len() == 0 {
        name
    } else if dir.last() == '/' {
        dir + name
    } else {
        dir + seq!['/'] + name
    }
}

/// The path with its trailing separators and trailing lone `.` segments
/// removed: what remains ends in a real name, or is empty.
pub open spec fn strip_tail(s: Seq<char>) -> Seq<char>
    decreases s.len(),
{
    if s.len() == 0 {
        s
    } else if s.last() == '/' {
        strip_tail(s.drop_last())
    } else if s.last() == '.' && (s.len() == 1 || s[s.len() - 2] == '/') {
        strip_tail(s.drop_last())
    } else {
        s
    }
}

/// Index of the last separator in `t`, or -1 if `t` has none.
pub open spec fn last_sep(t: Seq<char>) -> int
    decreases t.len(),
{
    if t.len() == 0 {
        -1
    } else if t.last() == '/' {
        t.len() - 1
    } else {
        last_sep(t.drop_last())
    }
}

/// The base name of a path: the final `/`-separated segment, ignoring
/// trailing separators and trailing `.` segments. A path with nothing
/// left, or whose final segment is `..`, has no usable base name.
pub open spec fn file_name_of(s: Seq<char>) -> Option<Seq<char>> {
    let t = strip_tail(s);
    if t.len() == 0 {
        None
    } else {
        let b = t.subrange(last_sep(t) + 1, t.len() as int);
        if b == seq!['.', '.'] {
            None
        } else {
            Some(b)
        }
    }
}

/// The directory holding a path: everything before the final segment.
/// The root keeps its `/`; a bare segment has the empty parent; the root
/// itself and the empty path have none.
pub open spec fn parent_of(s: Seq<char>) -> Option<Seq<char>> {
    let t = strip_tail(s);
    if t.len() == 0 {
        None
    } else if last_sep(t) == -1 {
        Some(Seq::<char>::empty())
    } else if last_sep(t) == 0 {
        Some(seq!['/'])
    } else {
        Some(t.subrange(0, last_sep(t)))
    }
}

pub proof fn lemma_last_sep_bounds(t: Seq<char>)
    ensures
        -1 <= last_sep(t) < t.len(),
    decreases t.len(),
{
    if t.len() > 0 && t.last() != '/' {
        lemma_last_sep_bounds(t.drop_last());
    }
}

/// Does the path end in a separator?
pub fn str_ends_with_sep(s: &str) -> (b: bool)
    ensures
        b == ends_with_sep(s@),
{
    let n = s.unicode_len();
    if n == 0 {
        false
    } else {
        s.get_char(n - 1) == '/'
    }
}

/// Append `name` under directory `dir`.
pub fn join_path(dir: &str, name: &str) -> (r: String)
    ensures
        r@ == spec_join(dir@, name@),
{
    let n = dir.unicode_len();
    if n == 0 {
        String::from_str(name)
    } else if dir.get_char(n - 1) == '/' {
        String::from_str(dir).concat(name)
    } else {
        proof {
            reveal_strlit("/");
            assert("/"@ =~= seq!['/']);
        }
        let mut s = String::from_str(dir);
        s.append("/");
        s.concat(name)
    }
}

/// Length of the prefix of `s` that `strip_tail` keeps.
fn strip_tail_len(s: &str) -> (k: usize)
    ensures
        s@.subrange(0, k as int) == strip_tail(s@),
        k <= s@.len(),
{
    let mut k = s.unicode_len();
    proof {
        assert(s@.subrange(0, k as int) =~= s@);
    }
    while k > 0 && (s.get_char(k - 1) == '/' || (s.get_char(k - 1) == '.' && (k == 1
        || s.get_char(k - 2) == '/')))
        invariant
            k <= s@.len(),
            strip_tail(s@) == strip_tail(s@.subrange(0, k as int)),
        decreases k,
    {
        proof {
            let t = s@.subrange(0, k as int);
            assert(t.last() == s@[k - 1]);
            if k >= 2 {
                assert(t[k - 2] == s@[k - 2]);
            }
            assert(t.drop_last() =~= s@.subrange(0, k as int - 1));
        }
        k = k - 1;
    }
    proof {
        let t = s@.subrange(0, k as int);
        if k > 0 {
            assert(t.last() == s@[k - 1]);
            if k >= 2 {
                assert(t[k - 2] == s@[k - 2]);
            }
        }
        assert(strip_tail(t) == t);
    }
    k
}

/// Index just past the last separator of `t`, i.e. `last_sep(t@) + 1`.
fn after_last_sep(t: &str) -> (i: usize)
    ensures
        i as int == last_sep(t@) + 1,
        i <= t@.len(),
{
    let mut k = t.unicode_len();
    proof {
        assert(t@.subrange(0, k as int) =~= t@);
        lemma_last_sep_bounds(t@);
    }
    while k > 0
        invariant
            k <= t@.len(),
            last_sep(t@) == last_sep(t@.subrange(0, k as int)),
        decreases k,
    {
        proof {
            let u = t@.subrange(0, k as int);
            assert(u.last() == t@[k - 1]);
            assert(u.drop_last() =~= t@.subrange(0, k as int - 1));
        }
        if t.get_char(k - 1) == '/' {
            return k;
        }
        k = k - 1;
    }
    0
}

/// The base name of a path, per `file_name_of`.
pub fn file_name(s: &str) -> (r: Option<String>)
    ensures
        match r {
            Some(b) => file_name_of(s@) == Some(b@),
            None => file_name_of(s@) is None,
        },
{
    let k = strip_tail_len(s);
    if k == 0 {
        return None;
    }
    let t = s.substring_char(0, k);
    let start = after_last_sep(t);
    let b = t.substring_char(start, k);
    let bl = b.unicode_len();
    if bl == 2 && b.get_char(0) == '.' && b.get_char(1) == '.' {
        proof {
            assert(b@ =~= seq!['.', '.']);
        }
        None
    } else {
        proof {
            assert(b@ != seq!['.', '.']) by {
                assert(seq!['.', '.'].len() == 2 && seq!['.', '.'][0] == '.'
                    && seq!['.', '.'][1] == '.');
            }
        }
        Some(String::from_str(b))
    }
}

/// Index of the first separator in `s`, or `s.len()` if `s` has none.
pub open spec fn first_sep(s: Seq<char>) -> nat
    decreases s.len(),
{
    if s.len() == 0 {
        0
    } else if s[0] == '/' {
        0
    } else {
        1 + first_sep(s.drop_first())
    }
}

/// A segment that names a directory to walk into: nonempty and neither of
/// the relative segments `.` and `..`.
pub open spec fn is_normal_segment(seg: Seq<char>) -> bool {
    seg.len() > 0 && seg != seq!['.'] && seg != seq!['.', '.']
}

/// The normal segments of a path, in order: what a component walk visits.
/// Empty segments and the relative segments `.` and `..` are passed over.
pub open spec fn components_of(s: Seq<char>) -> Seq<Seq<char>>
    decreases s.len(),
{
    if s.len() == 0 {
        Seq::<Seq<char>>::empty()
    } else if first_sep(s) >= s.len() {
        if is_normal_segment(s) {
            seq![s]
        } else {
            Seq::<Seq<char>>::empty()
        }
    } else {
        let i = first_sep(s) as int;
        let seg = s.subrange(0, i);
        let rest = s.subrange(i + 1, s.len() as int);
        if is_normal_segment(seg) {
            seq![seg] + components_of(rest)
        } else {
            components_of(rest)
        }
    }
}

pub proof fn lemma_first_sep_char(s: Seq<char>)
    ensures
        first_sep(s) <= s.len(),
        forall|j: int| 0 <= j < first_sep(s) ==> s[j] != '/',
        first_sep(s) < s.len() ==> s[first_sep(s) as int] == '/',
    decreases s.len(),
{
    if s.len() == 0 {
    } else if s[0] == '/' {
    } else {
        lemma_first_sep_char(s.drop_first());
        assert forall|j: int| 0 <= j < first_sep(s) implies s[j] != '/' by {
            if j > 0 {
                assert(s.drop_first()[j - 1] == s[j]);
            }
        }
        if first_sep(s) < s.len() {
            assert(s.drop_first()[first_sep(s) - 1] == s[first_sep(s) as int]);
        }
    }
}

/// Index of the first separator of `s`, or its length if it has none.
fn find_first_sep(s: &str) -> (i: usize)
    ensures
        i as nat == first_sep(s@),
        i <= s@.len(),
{
    let n = s.unicode_len();
    let mut i: usize = 0;
    while i < n
        invariant
            i <= n,
            n == s@.len(),
            forall|k: int| 0 <= k < i ==> s@[k] != '/',
        decreases n - i,
    {
        if s.get_char(i) == '/' {
            proof {
                lemma_first_sep_char(s@);
            }
            return i;
        }
        i = i + 1;
    }
    proof {
        lemma_first_sep_char(s@);
    }
    n
}

/// Is `seg` a normal segment, per `is_normal_segment`?
fn is_normal_seg(seg: &str) -> (b: bool)
    ensures
        b == is_normal_segment(seg@),
{
    let l = seg.unicode_len();
    proof {
        assert(seq!['.'].len() == 1 && seq!['.'][0] == '.');
        assert(seq!['.', '.'].len() == 2 && seq!['.', '.'][0] == '.' && seq!['.', '.'][1] == '.');
    }
    if l == 0 {
        false
    } else if l == 1 && seg.get_char(0) == '.' {
        proof {
            assert(seg@ =~= seq!['.']);
        }
        false
    } else if l == 2 && seg.get_char(0) == '.' && seg.get_char(1) == '.' {
        proof {
            assert(seg@ =~= seq!['.', '.']);
        }
        false
    } else {
        true
    }
}

/// The normal segments of a path, per `components_of`.
pub fn split_normal(s: &str) -> (r: Vec<String>)
    ensures
        r.deep_view() == components_of(s@),
    decreases s@.len(),
{
    let n = s.unicode_len();
    if n == 0 {
        let r: Vec<String> = Vec::new();
        proof {
            assert(r.deep_view() =~= components_of(s@));
        }
        return r;
    }
    let i = find_first_sep(s);
    if i >= n {
        if is_normal_seg(s) {
            let mut r: Vec<String> = Vec::new();
            r.push(String::from_str(s));
            proof {
                assert(r.deep_view() =~= seq![s@]);
            }
            r
        } else {
            let r: Vec<String> = Vec::new();
            proof {
                assert(r.deep_view() =~= Seq::<Seq<char>>::empty());
            }
            r
        }
    } else {
        let seg = s.substring_char(0, i);
        let rest = s.substring_char(i + 1, n);
        let mut tail = split_normal(rest);
        if is_normal_seg(seg) {
            let mut r: Vec<String> = Vec::new();
            r.push(String::from_str(seg));
            let ghost tail_view = tail.deep_view();
            r.append(&mut tail);
            proof {
                assert(r.deep_view() =~= seq![seg@] + tail_view);
            }
            r
        } else {
            tail
        }
    }
}

/// The directory holding a path, per `parent_of`.
pub fn parent_dir(s: &str) -> (r: Option<String>)
    ensures
        match r {
            Some(p) => parent_of(s@) == Some(p@),
            None => parent_of(s@) is None,
        },
{
    let k = strip_tail_len(s);
    if k == 0 {
        return None;
    }
    let t = s.substring_char(0, k);
    let start = after_last_sep(t);
    if start == 0 {
        proof {
            reveal_strlit("");
            assert(""@ =~= Seq::<char>::empty());
        }
        Some(String::from_str(""))
    } else if start == 1 {
        proof {
            reveal_strlit("/");
            assert("/"@ =~= seq!['/']);
        }
        Some(String::from_str("/"))
    } else {
        Some(String::from_str(t.substring_char(0, start - 1)))
    }
}

} // verus!
