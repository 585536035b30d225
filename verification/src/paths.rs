//! The parts of a file path that the speller repository looks at: the final
//! component, its stem and its extension. Both `/` and `\` separate
//! components, as on Windows.
use vstd::prelude::*;
use crate::text::to_owned_string;

verus! {

/// Whether `c` separates path components.
pub open spec fn is_separator(c: char) -> bool {
    c == '/' || c == '\\'
}

/// The index of the last separator in `s`, or -1.
pub open spec fn last_separator(s: Seq<char>) -> int
    decreases s.len(),
{
    if s.len() == 0 {
        -1
    } else if is_separator(s.last()) {
        s.len() - 1
    } else {
        last_separator(s.drop_last())
    }
}

/// The index of the last `.` in `s`, or -1.
pub open spec fn last_dot(s: Seq<char>) -> int
    decreases s.len(),
{
    if s.len() == 0 {
        -1
    } else if s.last() == '.' {
        s.len() - 1
    } else {
        last_dot(s.drop_last())
    }
}

/// The final component of a path: the text after its last separator,
/// unless that text is empty or `..`.
pub open spec fn spec_file_name(p: Seq<char>) -> Option<Seq<char>> {
    let name = p.subrange(last_separator(p) + 1, p.len() as int);
    if name.len() == 0 || name == seq!['.', '.'] {
        None
    } else {
        Some(name)
    }
}

/// The stem of a file name: the name before its last `.`, or the whole name
/// when it has no `.` or only a leading one.
pub open spec fn stem_of(name: Seq<char>) -> Seq<char> {
    let d = last_dot(name);
    if d <= 0 {
        name
    } else {
        name.take(d)
    }
}

/// The stem of a path's final component.
pub open spec fn spec_file_stem(p: Seq<char>) -> Option<Seq<char>> {
    match spec_file_name(p) {
        Some(name) => Some(stem_of(name)),
        None => None,
    }
}

/// The extension of a path's final component: the text after its last
/// `.`, if there is a `.` other than a leading one.
pub open spec fn spec_extension(p: Seq<char>) -> Option<Seq<char>> {
    match spec_file_name(p) {
        Some(name) => {
            let d = last_dot(name);
            if d <= 0 {
                None
            } else {
                Some(name.skip(d + 1))
            }
        },
        None => None,
    }
}

proof fn lemma_last_separator_bounds(s: Seq<char>)
    ensures
        -1 <= last_separator(s) < s.len(),
        last_separator(s) >= 0 ==> is_separator(s[last_separator(s)]),
        forall|j: int| last_separator(s) < j < s.len() ==> !is_separator(#[trigger] s[j]),
    decreases s.len(),
{
    if s.len() > 0 && !is_separator(s.last()) {
        lemma_last_separator_bounds(s.drop_last());
        assert forall|j: int| last_separator(s) < j < s.len() implies !is_separator(#[trigger] s[j]) by {
            if j < s.len() - 1 {
                assert(s[j] == s.drop_last()[j]);
            }
        }
    }
}

proof fn lemma_last_separator_unique(s: Seq<char>, i: int)
    requires
        -1 <= i < s.len(),
        i >= 0 ==> is_separator(s[i]),
        forall|j: int| i < j < s.len() ==> !is_separator(#[trigger] s[j]),
    ensures
        last_separator(s) == i,
    decreases s.len(),
{
    if s.len() > 0 && i < s.len() - 1 {
        assert(!is_separator(s[s.len() - 1]));
        assert forall|j: int| i < j < s.drop_last().len() implies !is_separator(#[trigger] s.drop_last()[j]) by {
            assert(s.drop_last()[j] == s[j]);
        }
        if i >= 0 {
            assert(s.drop_last()[i] == s[i]);
        }
        lemma_last_separator_unique(s.drop_last(), i);
    }
}

proof fn lemma_last_dot_unique(s: Seq<char>, i: int)
    requires
        -1 <= i < s.len(),
        i >= 0 ==> s[i] == '.',
        forall|j: int| i < j < s.len() ==> #[trigger] s[j] != '.',
    ensures
        last_dot(s) == i,
    decreases s.len(),
{
    if s.len() > 0 && i < s.len() - 1 {
        assert(s[s.len() - 1] != '.');
        assert forall|j: int| i < j < s.drop_last().len() implies #[trigger] s.drop_last()[j] != '.' by {
            assert(s.drop_last()[j] == s[j]);
        }
        if i >= 0 {
            assert(s.drop_last()[i] == s[i]);
        }
        lemma_last_dot_unique(s.drop_last(), i);
    }
}

/// The index just after the last separator of `s` (0 when it has none).
fn name_start(s: &str) -> (res: usize)
    ensures
        res as int == last_separator(s@) + 1,
{
    let n = s.unicode_len();
    let mut i: usize = n;
    while i > 0
        invariant
            n == s@.len(),
            i <= n,
            forall|j: int| i <= j < n ==> !is_separator(#[trigger] s@[j]),
        decreases i,
    {
        let c = s.get_char(i - 1);
        if c == '/' || c == '\\' {
            proof {
                lemma_last_separator_unique(s@, i - 1);
            }
            return i;
        }
        i = i - 1;
    }
    proof {
        lemma_last_separator_unique(s@, -1);
    }
    0
}

/// The index of the last `.` of `s`.
fn find_last_dot(s: &str) -> (res: Option<usize>)
    ensures
        match res {
            Some(i) => i as int == last_dot(s@) && i < s@.len(),
            None => last_dot(s@) == -1,
        },
{
    let n = s.unicode_len();
    let mut i: usize = n;
    while i > 0
        invariant
            n == s@.len(),
            i <= n,
            forall|j: int| i <= j < n ==> #[trigger] s@[j] != '.',
        decreases i,
    {
        if s.get_char(i - 1) == '.' {
            proof {
                lemma_last_dot_unique(s@, i - 1);
            }
            return Some(i - 1);
        }
        i = i - 1;
    }
    proof {
        lemma_last_dot_unique(s@, -1);
    }
    None
}

/// The final component of a path.
pub fn file_name(path: &str) -> (res: Option<String>)
    ensures
        match res {
            Some(n) => spec_file_name(path@) == Some(n@),
            None => spec_file_name(path@) is None,
        },
{
    let start = name_start(path);
    let n = path.unicode_len();
    proof {
        lemma_last_separator_bounds(path@);
    }
    let name = path.substring_char(start, n);
    let len = n - start;
    if len == 0 {
        return None;
    }
    if len == 2 && name.get_char(0) == '.' && name.get_char(1) == '.' {
        assert(name@ =~= seq!['.', '.']);
        return None;
    }
    proof {
        if name@ =~= seq!['.', '.'] {
            assert(name@[0] == '.' && name@[1] == '.');
        }
    }
    Some(to_owned_string(name))
}

/// The stem of a path's final component (`se` for `dir/se.zhfst`).
pub fn file_stem(path: &str) -> (res: Option<String>)
    ensures
        match res {
            Some(s) => spec_file_stem(path@) == Some(s@),
            None => spec_file_stem(path@) is None,
        },
{
    match file_name(path) {
        None => None,
        Some(name) => {
            let s = name.as_str();
            match find_last_dot(s) {
                Some(d) => {
                    if d == 0 {
                        Some(name)
                    } else {
                        Some(to_owned_string(s.substring_char(0, d)))
                    }
                },
                None => Some(name),
            }
        },
    }
}

/// The extension of a path's final component (`zhfst` for `dir/se.zhfst`).
pub fn extension(path: &str) -> (res: Option<String>)
    ensures
        match res {
            Some(s) => spec_extension(path@) == Some(s@),
            None => spec_extension(path@) is None,
        },
{
    match file_name(path) {
        None => None,
        Some(name) => {
            let s = name.as_str();
            match find_last_dot(s) {
                Some(d) => {
                    if d == 0 {
                        None
                    } else {
                        let n = s.unicode_len();
                        Some(to_owned_string(s.substring_char(d + 1, n)))
                    }
                },
                None => None,
            }
        },
    }
}

} // verus!
