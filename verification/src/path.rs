//! Paths as text, with `/` between their components.

use vstd::prelude::*;
use crate::text::{chars_of, push_chars, spells, string_of};

verus! {

/// Where the last component of `s` starts: after the last `/`, or at the
/// very start where `s` holds none.
pub open spec fn name_start(s: Seq<char>) -> int
    decreases s.len(),
{
    if s.len() == 0 {
        0
    } else if s.last() == '/' {
        s.len() as int
    } else {
        name_start(s.drop_last())
    }
}

/// The last component of `s`: what follows its last `/`.
pub open spec fn file_name(s: Seq<char>) -> Seq<char> {
    s.skip(name_start(s))
}

/// Where the last `.` of `s` stands, `-1` where `s` holds none.
pub open spec fn last_dot(s: Seq<char>) -> int
    decreases s.len(),
{
    if s.len() == 0 {
        -1
    } else if s.last() == '.' {
        s.len() - 1
    } else {
        last_dot(s.drop_last())
    }
}

/// Whether the file name `name` has an extension: a `.` that is not its
/// first character, in a name other than `..`.
pub open spec fn has_extension(name: Seq<char>) -> bool {
    last_dot(name) > 0 && name != seq!['.', '.']
}

/// The extension of the last component of `s`: what follows its last `.`.
pub open spec fn extension(s: Seq<char>) -> Option<Seq<char>> {
    let name = file_name(s);
    if has_extension(name) {
        Some(name.skip(last_dot(name) + 1))
    } else {
        None
    }
}

/// `s` without the extension of its last component and without the `.`
/// before it; `s` itself where that component has no extension.
pub open spec fn without_extension(s: Seq<char>) -> Seq<char> {
    let name = file_name(s);
    if has_extension(name) {
        s.take(name_start(s) + last_dot(name))
    } else {
        s
    }
}

/// `rel` as seen from `base`: `rel` itself where it starts at the root or
/// `base` is empty, else `base`, a `/` unless `base` ends in one, and `rel`.
pub open spec fn joined(base: Seq<char>, rel: Seq<char>) -> Seq<char> {
    if (rel.len() > 0 && rel[0] == '/') || base.len() == 0 {
        rel
    } else if base.last() == '/' {
        base + rel
    } else {
        base + seq!['/'] + rel
    }
}

/// Whether `s[from..to]` is a component of `s`: it holds no `/` and reaches
/// as far as the end of `s` or the next `/` on either side.
pub open spec fn component_at(s: Seq<char>, from: int, to: int) -> bool {
    &&& 0 <= from <= to <= s.len()
    &&& from == 0 || s[from - 1] == '/'
    &&& to == s.len() || s[to] == '/'
    &&& forall|k: int| from <= k < to ==> s[k] != '/'
}

/// Whether `s` is, or lies under, a directory named `name`: one of its
/// components is `name`, and either another follows it or it is the last
/// and `s` is a directory.
pub open spec fn has_dir_component(s: Seq<char>, name: Seq<char>, is_dir: bool) -> bool {
    exists|from: int, to: int| #[trigger]
        component_at(s, from, to) && s.subrange(from, to) == name && (to < s.len() || is_dir)
}

/// Whether one of the components of `s` starts with a `.`.
pub open spec fn has_hidden_component(s: Seq<char>) -> bool {
    exists|from: int, to: int| #[trigger] component_at(s, from, to) && from < to && s[from] == '.'
}

/// The last component starts after a `/` or at the start, and holds no `/`.
pub proof fn lemma_name_start(s: Seq<char>)
    ensures
        0 <= name_start(s) <= s.len(),
        name_start(s) == 0 || s[name_start(s) - 1] == '/',
        forall|k: int| name_start(s) <= k < s.len() ==> s[k] != '/',
    decreases s.len(),
{
    if s.len() > 0 && s.last() != '/' {
        lemma_name_start(s.drop_last());
        assert forall|k: int| name_start(s) <= k < s.len() implies s[k] != '/' by {
            if k < s.len() - 1 {
                assert(s.drop_last()[k] == s[k]);
            }
        }
    }
}

/// The place after the last `/` is where the last component starts.
pub proof fn lemma_name_start_is(s: Seq<char>, at: int)
    requires
        0 <= at <= s.len(),
        at == 0 || s[at - 1] == '/',
        forall|k: int| at <= k < s.len() ==> s[k] != '/',
    ensures
        name_start(s) == at,
    decreases s.len(),
{
    if s.len() > 0 && s.last() != '/' {
        assert(at < s.len());
        lemma_name_start_is(s.drop_last(), at);
    }
}

/// A `.` that none follows is the last one; without any, there is none.
pub proof fn lemma_last_dot_is(s: Seq<char>, at: int)
    requires
        -1 <= at < s.len(),
        at >= 0 ==> s[at] == '.',
        forall|k: int| at < k < s.len() ==> s[k] != '.',
    ensures
        last_dot(s) == at,
    decreases s.len(),
{
    if s.len() > 0 && s.last() != '.' {
        lemma_last_dot_is(s.drop_last(), at);
    }
}

/// Finds where the last component of `chars` starts.
pub fn find_name_start(chars: &[char]) -> (at: usize)
    ensures
        at == name_start(chars@),
        at <= chars@.len(),
{
    let mut at: usize = chars.len();
    while at > 0 && chars[at - 1] != '/'
        invariant
            at <= chars@.len(),
            forall|k: int| at <= k < chars@.len() ==> chars@[k] != '/',
        decreases at,
    {
        at -= 1;
    }
    proof {
        lemma_name_start_is(chars@, at as int);
    }
    at
}

/// Finds where the extension of the last component of `chars` starts, the
/// `.` before it included; `None` where that component has no extension.
pub fn find_extension(chars: &[char]) -> (at: Option<usize>)
    ensures
        at is Some <==> has_extension(file_name(chars@)),
        at matches Some(dot) ==> dot == name_start(chars@) + last_dot(file_name(chars@)) && dot
            < chars@.len(),
{
    let start = find_name_start(chars);
    let n = chars.len();
    let ghost name = file_name(chars@);
    let mut dot: usize = n;
    while dot > start && chars[dot - 1] != '.'
        invariant
            start <= dot <= n == chars@.len(),
            name == chars@.skip(start as int),
            forall|k: int| dot - start <= k < name.len() ==> name[k] != '.',
        decreases dot,
    {
        dot -= 1;
    }
    proof {
        // `dot` stands one past the last `.` of the name, or at its start.
        lemma_last_dot_is(name, dot - start - 1);
    }
    if dot - start <= 1 {
        return None;
    }
    if n - start == 2 && chars[start] == '.' && chars[start + 1] == '.' {
        assert(name =~= seq!['.', '.']);
        return None;
    }
    assert(name != seq!['.', '.']) by {
        if name == seq!['.', '.'] {
            assert(name.len() == 2);
            assert(name[0] == '.' && name[1] == '.');
        }
    }
    Some(dot - 1)
}

/// The extension of the last component of `path`.
pub fn extension_of(path: &str) -> (ext: Option<String>)
    ensures
        ext is Some <==> extension(path@) is Some,
        ext matches Some(e) ==> Some(e@) == extension(path@),
{
    let chars = chars_of(path);
    let n = chars.len();
    match find_extension(chars.as_slice()) {
        Some(dot) => {
            let e = string_of(chars.as_slice(), dot + 1, n);
            proof {
                lemma_name_start(path@);
                assert(e@ =~= file_name(path@).skip(last_dot(file_name(path@)) + 1));
            }
            Some(e)
        },
        None => None,
    }
}

/// `path` without the extension of its last component.
pub fn strip_extension(path: &str) -> (stripped: String)
    ensures
        stripped@ == without_extension(path@),
{
    let chars = chars_of(path);
    match find_extension(chars.as_slice()) {
        Some(dot) => {
            let s = string_of(chars.as_slice(), 0, dot);
            assert(s@ =~= path@.take(dot as int));
            s
        },
        None => {
            let s = string_of(chars.as_slice(), 0, chars.len());
            assert(s@ =~= path@);
            s
        },
    }
}

/// `rel` as seen from `base`.
pub fn join(base: &str, rel: &str) -> (path: String)
    ensures
        path@ == joined(base@, rel@),
{
    let b = chars_of(base);
    let r = chars_of(rel);
    let mut out: Vec<char> = Vec::new();
    if !((r.len() > 0 && r[0] == '/') || b.len() == 0) {
        push_chars(&mut out, b.as_slice(), 0, b.len());
        assert(out@ =~= b@);
        if b[b.len() - 1] != '/' {
            out.push('/');
        }
    }
    push_chars(&mut out, r.as_slice(), 0, r.len());
    let path = string_of(out.as_slice(), 0, out.len());
    proof {
        assert(r@.subrange(0, r@.len() as int) =~= r@);
        assert(path@ =~= out@);
        assert(out@ =~= joined(base@, rel@));
    }
    path
}

/// Finds the end of the component of `chars` that starts at `from`.
pub(crate) fn component_end(chars: &[char], from: usize) -> (to: usize)
    requires
        from <= chars@.len(),
        from == 0 || chars@[from - 1] == '/',
    ensures
        component_at(chars@, from as int, to as int),
{
    let mut to: usize = from;
    while to < chars.len() && chars[to] != '/'
        invariant
            from <= to <= chars@.len(),
            forall|k: int| from <= k < to ==> chars@[k] != '/',
        decreases chars@.len() - to,
    {
        to += 1;
    }
    to
}


/// Whether `chars` is, or lies under, a directory named `name`.
pub fn contains_dir_component(chars: &[char], name: &[char], is_dir: bool) -> (b: bool)
    ensures
        b == has_dir_component(chars@, name@, is_dir),
{
    let n = chars.len();
    let mut from: usize = 0;
    loop
        invariant
            from <= n == chars@.len(),
            from == 0 || chars@[from - 1] == '/',
            forall|a: int, b: int| #[trigger]
                component_at(chars@, a, b) && a < from ==> !(chars@.subrange(a, b) == name@ && (b
                    < n || is_dir)),
        decreases n - from,
    {
        let to = component_end(chars, from);
        if (to < n || is_dir) && spells(chars, from, to, name) {
            assert(component_at(chars@, from as int, to as int));
            return true;
        }
        assert forall|a: int, b: int| #[trigger]
            component_at(chars@, a, b) && a <= to implies !(chars@.subrange(a, b) == name@ && (b
            < n || is_dir)) by {
            if a == from {
                assert(b == to) by {
                    if b < to {
                        assert(chars@[b] == '/');
                    } else if to < b {
                        assert(chars@[to as int] == '/');
                    }
                }
            } else if a > from {
                assert(chars@[a - 1] == '/');
            }
        }
        if to == n {
            return false;
        }
        from = to + 1;
    }
}

/// Whether one of the components of `chars` starts with a `.`.
pub fn contains_hidden(chars: &[char]) -> (b: bool)
    ensures
        b == has_hidden_component(chars@),
{
    let n = chars.len();
    let mut from: usize = 0;
    loop
        invariant
            from <= n == chars@.len(),
            from == 0 || chars@[from - 1] == '/',
            forall|a: int, b: int| #[trigger]
                component_at(chars@, a, b) && a < from ==> !(a < b && chars@[a] == '.'),
        decreases n - from,
    {
        let to = component_end(chars, from);
        if from < to && chars[from] == '.' {
            assert(component_at(chars@, from as int, to as int));
            return true;
        }
        assert forall|a: int, b: int| #[trigger]
            component_at(chars@, a, b) && a <= to implies !(a < b && chars@[a] == '.') by {
            if a == from {
                assert(b == to) by {
                    if b < to {
                        assert(chars@[b] == '/');
                    } else if to < b {
                        assert(chars@[to as int] == '/');
                    }
                }
            } else if a > from {
                assert(chars@[a - 1] == '/');
            }
        }
        if to == n {
            return false;
        }
        from = to + 1;
    }
}

} // verus!
