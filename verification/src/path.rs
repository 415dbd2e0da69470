//! Paths as text: the directory of a file, a path joined to it, and the stem
//! of a file name. Both `/` and `\` are understood, whatever the host.

use vstd::prelude::*;
use crate::text::{chars_of, string_from_chars};

verus! {

/// The last offset before `n` at which `c` stands in `s`.
pub open spec fn rfind(s: Seq<char>, c: char, n: int) -> Option<int>
    decreases n,
{
    if n <= 0 || n > s.len() {
        None
    } else if s[n - 1] == c {
        Some(n - 1)
    } else {
        rfind(s, c, n - 1)
    }
}

/// The last offset before `n` at which `/` or `\` stands in `s`.
pub open spec fn rfind_separator(s: Seq<char>, n: int) -> Option<int>
    decreases n,
{
    if n <= 0 || n > s.len() {
        None
    } else if s[n - 1] == '/' || s[n - 1] == '\\' {
        Some(n - 1)
    } else {
        rfind_separator(s, n - 1)
    }
}

/// What `rfind` finds lies within the text.
pub proof fn lemma_rfind(s: Seq<char>, c: char, n: int)
    ensures
        rfind(s, c, n) matches Some(i) ==> 0 <= i < n && i < s.len() && s[i] == c,
    decreases n,
{
    if 0 < n <= s.len() && s[n - 1] != c {
        lemma_rfind(s, c, n - 1);
    }
}

/// What `rfind_separator` finds lies within the text.
pub proof fn lemma_rfind_separator(s: Seq<char>, n: int)
    ensures
        rfind_separator(s, n) matches Some(i) ==> 0 <= i < n && i < s.len(),
    decreases n,
{
    if 0 < n <= s.len() && !(s[n - 1] == '/' || s[n - 1] == '\\') {
        lemma_rfind_separator(s, n - 1);
    }
}

/// The directory of a file: the path before its last `/`; a file directly
/// under the root has the root. A path without `/` is cut before its last
/// `\`; without either, the directory is empty. The empty path and the root
/// have no directory.
pub open spec fn parent_of(path: Seq<char>) -> Option<Seq<char>> {
    match rfind(path, '/', path.len() as int) {
        Some(i) => if i == 0 {
            if path.len() == 1 {
                None
            } else {
                Some(path.subrange(0, 1))
            }
        } else {
            Some(path.subrange(0, i))
        },
        None => match rfind(path, '\\', path.len() as int) {
            Some(i) => Some(path.subrange(0, i)),
            None => if path.len() == 0 {
                None
            } else {
                Some(Seq::empty())
            },
        },
    }
}

/// `name` as seen from the directory `parent`: `name` itself where it starts
/// at the root or `parent` is empty, else `parent`, a `/` unless `parent`
/// ends in one, and `name`.
pub open spec fn join(parent: Seq<char>, name: Seq<char>) -> Seq<char> {
    if (name.len() > 0 && name[0] == '/') || parent.len() == 0 {
        name
    } else if parent.last() == '/' {
        parent + name
    } else {
        parent + seq!['/'] + name
    }
}

/// The path that an `include` of `literal` names in the file at `path`.
pub open spec fn include_path(path: Seq<char>, literal: Seq<char>) -> Option<Seq<char>> {
    match parent_of(path) {
        Some(parent) => Some(join(parent, literal)),
        None => None,
    }
}

/// The name of the file: the path behind its last `/` or `\`.
pub open spec fn base_name(path: Seq<char>) -> Seq<char> {
    match rfind_separator(path, path.len() as int) {
        Some(i) => path.subrange(i + 1, path.len() as int),
        None => path,
    }
}

/// The stem of the file: its name before its last dot, unless the name
/// starts with that dot or has none.
pub open spec fn file_stem(path: Seq<char>) -> Seq<char> {
    let name = base_name(path);
    match rfind(name, '.', name.len() as int) {
        Some(i) => if i > 0 {
            name.subrange(0, i)
        } else {
            name
        },
        None => name,
    }
}

fn find_last(chars: &[char], c: char, n: usize) -> (r: Option<usize>)
    requires
        n <= chars@.len(),
    ensures
        r.is_some() == rfind(chars@, c, n as int).is_some(),
        r.is_some() ==> r.unwrap() == rfind(chars@, c, n as int).unwrap() && r.unwrap() < n,
{
    let mut i: usize = n;
    while i > 0
        invariant
            i <= n <= chars@.len(),
            rfind(chars@, c, i as int) == rfind(chars@, c, n as int),
        decreases i,
    {
        if chars[i - 1] == c {
            return Some(i - 1);
        }
        i -= 1;
    }
    None
}

fn find_last_separator(chars: &[char], n: usize) -> (r: Option<usize>)
    requires
        n <= chars@.len(),
    ensures
        r.is_some() == rfind_separator(chars@, n as int).is_some(),
        r.is_some() ==> r.unwrap() == rfind_separator(chars@, n as int).unwrap() && r.unwrap() < n,
{
    let mut i: usize = n;
    while i > 0
        invariant
            i <= n <= chars@.len(),
            rfind_separator(chars@, i as int) == rfind_separator(chars@, n as int),
        decreases i,
    {
        if chars[i - 1] == '/' || chars[i - 1] == '\\' {
            return Some(i - 1);
        }
        i -= 1;
    }
    None
}

/// The directory of the file at `path`.
pub fn path_parent(path: &str) -> (r: Option<String>)
    ensures
        r.deep_view() == parent_of(path@),
{
    let chars = chars_of(path);
    let n = chars.len();
    match find_last(chars.as_slice(), '/', n) {
        Some(i) => {
            if i == 0 {
                if n == 1 {
                    None
                } else {
                    Some(string_from_chars(chars.as_slice(), 0, 1))
                }
            } else {
                Some(string_from_chars(chars.as_slice(), 0, i))
            }
        },
        None => match find_last(chars.as_slice(), '\\', n) {
            Some(i) => Some(string_from_chars(chars.as_slice(), 0, i)),
            None => {
                if n == 0 {
                    None
                } else {
                    let s = String::new();
                    assert(s@ =~= Seq::<char>::empty());
                    Some(s)
                }
            },
        },
    }
}

/// `name` as seen from the directory `parent`.
pub fn join_path(parent: &str, name: &str) -> (r: String)
    ensures
        r@ == join(parent@, name@),
{
    let p = chars_of(parent);
    let n = chars_of(name);
    let mut out: Vec<char> = Vec::new();
    if (n.len() > 0 && n[0] == '/') || p.len() == 0 {
        let r = string_from_chars(n.as_slice(), 0, n.len());
        assert(n@.subrange(0, n@.len() as int) =~= n@);
        return r;
    }
    let mut i: usize = 0;
    while i < p.len()
        invariant
            i <= p.len(),
            out@ == p@.subrange(0, i as int),
        decreases p.len() - i,
    {
        out.push(p[i]);
        i += 1;
        assert(out@ =~= p@.subrange(0, i as int));
    }
    assert(p@.subrange(0, p@.len() as int) =~= p@);
    if p[p.len() - 1] != '/' {
        out.push('/');
    }
    let ghost lead = out@;
    let mut j: usize = 0;
    while j < n.len()
        invariant
            j <= n.len(),
            out@ == lead + n@.subrange(0, j as int),
        decreases n.len() - j,
    {
        out.push(n[j]);
        j += 1;
        assert(out@ =~= lead + n@.subrange(0, j as int));
    }
    assert(n@.subrange(0, n@.len() as int) =~= n@);
    let r = string_from_chars(out.as_slice(), 0, out.len());
    assert(out@.subrange(0, out@.len() as int) =~= out@);
    assert(lead =~= if p@.last() == '/' {
        p@
    } else {
        p@ + seq!['/']
    });
    r
}

/// The stem of the file at `path`: its name without its extension.
pub fn stem_of(path: &str) -> (r: String)
    ensures
        r@ == file_stem(path@),
{
    let chars = chars_of(path);
    let n = chars.len();
    let from = match find_last_separator(chars.as_slice(), n) {
        Some(i) => i + 1,
        None => 0,
    };
    let ghost name = chars@.subrange(from as int, n as int);
    assert(from == 0 ==> name =~= chars@);
    // the last dot of the name, searched in the whole path from its end
    let mut i: usize = n;
    let mut dot: Option<usize> = None;
    while i > from
        invariant_except_break
            dot.is_none(),
            rfind(name, '.', i - from) == rfind(name, '.', name.len() as int),
        invariant
            from <= i <= n,
            n == chars@.len(),
            name == chars@.subrange(from as int, n as int),
        ensures
            from <= i <= n,
            match dot {
                Some(d) => from <= d < n && rfind(name, '.', name.len() as int) == Some(d - from),
                None => rfind(name, '.', name.len() as int).is_none(),
            },
        decreases i,
    {
        if chars[i - 1] == '.' {
            dot = Some(i - 1);
            break ;
        }
        i -= 1;
    }
    let to = match dot {
        Some(d) => if d > from {
            d
        } else {
            n
        },
        None => n,
    };
    let r = string_from_chars(chars.as_slice(), from, to);
    assert(chars@.subrange(from as int, to as int) =~= name.subrange(0, to - from));
    assert(name.subrange(0, name.len() as int) =~= name);
    r
}

} // verus!
