//! Paths as text, for both families of platforms: `/` separates elsewhere, on
//! Windows `\` does too and a path may begin with a drive, a network share or one
//! of the forms that begin with `\\.\` and `\\?\`. In the last, the verbatim form,
//! `/` does not separate and nothing below the prefix is left for the system to
//! resolve.

use vstd::prelude::*;

use crate::text::{join_strings, str_chars, str_eq, sub_string};

verus! {

/// A separator on Windows.
pub open spec fn is_sep(c: char) -> bool {
    c == '/' || c == '\\'
}

/// A letter that can name a drive.
pub open spec fn is_letter(c: char) -> bool {
    'A' <= c <= 'Z' || 'a' <= c <= 'z'
}

/// Index of the first separator, or the length. In verbatim paths only the
/// backslash counts.
pub open spec fn first_sep(s: Seq<char>, verbatim: bool) -> nat
    decreases s.len(),
{
    if s.len() == 0 || s[0] == '\\' || (s[0] == '/' && !verbatim) {
        0
    } else {
        1 + first_sep(s.skip(1), verbatim)
    }
}

/// A Windows path that begins with a drive letter and a colon.
pub open spec fn has_drive(p: Seq<char>) -> bool {
    p.len() >= 2 && is_letter(p[0]) && p[1] == ':'
}

/// A Windows path that begins with `\\?\`.
pub open spec fn is_verbatim(p: Seq<char>) -> bool {
    p.len() >= 4 && p[0] == '\\' && p[1] == '\\' && p[2] == '?' && p[3] == '\\'
}

/// A Windows path that begins with `\\.\`.
pub open spec fn is_device(p: Seq<char>) -> bool {
    p.len() >= 4 && is_sep(p[0]) && is_sep(p[1]) && p[2] == '.' && is_sep(p[3])
}

/// How much of a verbatim path is its prefix: a share behind `UNC`, a drive, or
/// the first name.
pub open spec fn verbatim_len(p: Seq<char>) -> nat {
    if p.len() >= 8 && p[4] == 'U' && p[5] == 'N' && p[6] == 'C' && is_sep(p[7]) {
        let server = first_sep(p.skip(8), true);
        let share = first_sep(p.skip((8 + server + 1) as int), true);
        if 8 + server + 1 < p.len() && share > 0 {
            8 + server + 1 + share
        } else {
            8 + server
        }
    } else if p.len() >= 6 && is_letter(p[4]) && p[5] == ':' && (p.len() == 6 || is_sep(p[6])) {
        6
    } else {
        4 + first_sep(p.skip(4), true)
    }
}

/// How much of a path that begins with two separators names a network share:
/// the server, the separator and the share, none of them empty.
pub open spec fn share_len(p: Seq<char>) -> nat {
    let server = first_sep(p.skip(2), false);
    let share = first_sep(p.skip((2 + server + 1) as int), false);
    if p.len() >= 2 && is_sep(p[0]) && is_sep(p[1]) && 0 < server && 2 + server + 1 < p.len() && 0
        < share {
        2 + server + 1 + share
    } else {
        0
    }
}

/// How much of a Windows path is its prefix; 0 when it has none.
pub open spec fn prefix_len(p: Seq<char>) -> nat {
    if has_drive(p) {
        2
    } else if is_verbatim(p) {
        verbatim_len(p)
    } else if is_device(p) {
        4 + first_sep(p.skip(4), false)
    } else {
        share_len(p)
    }
}

/// A path that does not depend on a current directory: on Windows a drive with a
/// separator behind it or any other prefix, elsewhere a leading `/`.
pub open spec fn absolute(windows: bool, p: Seq<char>) -> bool {
    if windows {
        if has_drive(p) {
            p.len() > 2 && is_sep(p[2])
        } else {
            prefix_len(p) > 0
        }
    } else {
        p.len() > 0 && p[0] == '/'
    }
}

/// The names between the separators.
pub open spec fn names(s: Seq<char>, verbatim: bool) -> Seq<Seq<char>>
    decreases s.len(),
{
    let k = first_sep(s, verbatim) as int;
    let rest = if k < s.len() {
        names(s.skip(k + 1), verbatim)
    } else {
        Seq::empty()
    };
    if k == 0 {
        rest
    } else {
        seq![s.take(k)] + rest
    }
}

/// A name walked from a list of names: `.` stays and `..` goes back, as long as
/// there is a real name to go back over.
pub open spec fn walked(base: Seq<Seq<char>>, name: Seq<char>) -> Seq<Seq<char>> {
    if name == "."@ {
        base
    } else if name == ".."@ {
        if base.len() > 0 && base.last() != "."@ && base.last() != ".."@ {
            base.drop_last()
        } else {
            base
        }
    } else {
        base.push(name)
    }
}

/// Names walked one after the other.
pub open spec fn walked_all(base: Seq<Seq<char>>, rest: Seq<Seq<char>>) -> Seq<Seq<char>>
    decreases rest.len(),
{
    if rest.len() == 0 {
        base
    } else {
        walked_all(walked(base, rest[0]), rest.skip(1))
    }
}

/// A path without a prefix below a verbatim directory: `.` and `..` are resolved
/// and the names are put together with backslashes.
pub open spec fn verbatim_join(base: Seq<char>, rest: Seq<char>) -> Seq<char> {
    let k = prefix_len(base) as int;
    let rooted = k < base.len() && is_sep(base[k]);
    let from = if is_sep(rest[0]) {
        Seq::empty()
    } else {
        names(base.skip(if rooted { k + 1 } else { k }), true)
    };
    let all = walked_all(from, names(rest, false));
    if rooted || is_sep(rest[0]) || all.len() > 0 {
        base.take(k) + "\\"@ + crate::text::joined(all, "\\"@)
    } else {
        base.take(k)
    }
}

/// A relative path below a directory. An absolute one replaces it; on Windows a
/// path with a drive does too, and one that begins with a separator keeps the
/// prefix of the directory.
pub open spec fn path_join(windows: bool, base: Seq<char>, rest: Seq<char>) -> Seq<char> {
    if windows {
        if prefix_len(rest) > 0 {
            rest
        } else if is_verbatim(base) && rest.len() > 0 {
            verbatim_join(base, rest)
        } else if rest.len() > 0 && is_sep(rest[0]) {
            base.take(prefix_len(base) as int) + rest
        } else if base.len() == 0 || is_sep(base.last()) || (has_drive(base) && base.len() == 2) {
            base + rest
        } else {
            base + "\\"@ + rest
        }
    } else if rest.len() > 0 && rest[0] == '/' {
        rest
    } else if base.len() == 0 || base.last() == '/' {
        base + rest
    } else {
        base + "/"@ + rest
    }
}

fn sep(c: char) -> (r: bool)
    ensures
        r == is_sep(c),
{
    c == '/' || c == '\\'
}

fn letter(c: char) -> (r: bool)
    ensures
        r == is_letter(c),
{
    ('A' <= c && c <= 'Z') || ('a' <= c && c <= 'z')
}

/// A character that separates.
spec fn separates(c: char, verbatim: bool) -> bool {
    c == '\\' || (c == '/' && !verbatim)
}

proof fn lemma_first_sep(s: Seq<char>, verbatim: bool, k: nat)
    requires
        k <= s.len(),
        forall|i: int| 0 <= i < k ==> !separates(#[trigger] s[i], verbatim),
        k < s.len() ==> separates(s[k as int], verbatim),
    ensures
        first_sep(s, verbatim) == k,
    decreases s.len(),
{
    if k > 0 {
        assert(!separates(s[0], verbatim));
        assert forall|i: int| 0 <= i < k - 1 implies !separates(
            #[trigger] s.skip(1)[i],
            verbatim,
        ) by {
            assert(s.skip(1)[i] == s[i + 1]);
        }
        lemma_first_sep(s.skip(1), verbatim, (k - 1) as nat);
    }
}

/// Index of the first separator from `from` on, or the length.
fn find_sep(v: &[char], from: usize, verbatim: bool) -> (r: usize)
    requires
        from <= v@.len(),
    ensures
        r == from + first_sep(v@.skip(from as int), verbatim),
        r <= v@.len(),
{
    let mut i: usize = from;
    while i < v.len() && !(v[i] == '\\' || (v[i] == '/' && !verbatim))
        invariant
            from <= i <= v@.len(),
            forall|j: int| from <= j < i ==> !separates(#[trigger] v@[j], verbatim),
        decreases v@.len() - i,
    {
        i = i + 1;
    }
    proof {
        let s = v@.skip(from as int);
        assert forall|j: int| 0 <= j < i - from implies !separates(#[trigger] s[j], verbatim) by {
            assert(s[j] == v@[from + j]);
        }
        lemma_first_sep(s, verbatim, (i - from) as nat);
    }
    i
}

fn drive(v: &[char]) -> (r: bool)
    ensures
        r == has_drive(v@),
{
    v.len() >= 2 && letter(v[0]) && v[1] == ':'
}

fn verbatim(v: &[char]) -> (r: bool)
    ensures
        r == is_verbatim(v@),
{
    v.len() >= 4 && v[0] == '\\' && v[1] == '\\' && v[2] == '?' && v[3] == '\\'
}

fn verbatim_end(v: &[char]) -> (r: usize)
    requires
        is_verbatim(v@),
    ensures
        r == verbatim_len(v@),
        r <= v@.len(),
{
    if v.len() >= 8 && v[4] == 'U' && v[5] == 'N' && v[6] == 'C' && sep(v[7]) {
        let server = find_sep(v, 8, true);
        if server >= v.len() - 1 {
            return server;
        }
        let end = find_sep(v, server + 1, true);
        if end == server + 1 {
            server
        } else {
            end
        }
    } else if v.len() >= 6 && letter(v[4]) && v[5] == ':' && (v.len() == 6 || sep(v[6])) {
        6
    } else {
        find_sep(v, 4, true)
    }
}

fn share_end(v: &[char]) -> (r: usize)
    ensures
        r == share_len(v@),
        r <= v@.len(),
{
    if v.len() < 2 || !sep(v[0]) || !sep(v[1]) {
        return 0;
    }
    let server = find_sep(v, 2, false);
    if server == 2 || server >= v.len() - 1 {
        return 0;
    }
    let end = find_sep(v, server + 1, false);
    if end == server + 1 {
        0
    } else {
        end
    }
}

fn prefix_end(v: &[char]) -> (r: usize)
    ensures
        r == prefix_len(v@),
        r <= v@.len(),
{
    if drive(v) {
        2
    } else if verbatim(v) {
        verbatim_end(v)
    } else if v.len() >= 4 && sep(v[0]) && sep(v[1]) && v[2] == '.' && sep(v[3]) {
        find_sep(v, 4, false)
    } else {
        share_end(v)
    }
}

/// Whether a path does not depend on a current directory.
pub fn is_absolute(windows: bool, p: &str) -> (r: bool)
    ensures
        r == absolute(windows, p@),
{
    let v = str_chars(p);
    if windows {
        if drive(&v) {
            v.len() > 2 && sep(v[2])
        } else {
            prefix_end(&v) > 0
        }
    } else {
        v.len() > 0 && v[0] == '/'
    }
}

/// The names from `from` on.
fn split_names(v: &[char], from: usize, verbatim: bool) -> (r: Vec<String>)
    requires
        from <= v@.len(),
    ensures
        crate::text::texts(r@) == names(v@.skip(from as int), verbatim),
{
    let ghost goal = names(v@.skip(from as int), verbatim);
    let mut out: Vec<String> = Vec::new();
    let mut at: usize = from;
    assert(crate::text::texts(out@) + goal =~= goal);
    while at < v.len()
        invariant
            at <= v@.len(),
            goal == crate::text::texts(out@) + names(v@.skip(at as int), verbatim),
        decreases v@.len() - at,
    {
        let ghost rest = v@.skip(at as int);
        let ghost before = crate::text::texts(out@);
        let end = find_sep(v, at, verbatim);
        let k: Ghost<int> = Ghost(end - at);
        if end > at {
            let name = sub_string(v, at, end);
            proof {
                assert(rest.take(k@) =~= v@.subrange(at as int, end as int));
                crate::text::lemma_texts_push(out@, name);
            }
            out.push(name);
        }
        proof {
            let now = crate::text::texts(out@);
            let tail = if end < v@.len() {
                names(v@.skip(end + 1), verbatim)
            } else {
                Seq::empty()
            };
            if end < v@.len() {
                assert(rest.skip(k@ + 1) =~= v@.skip(end + 1));
            }
            if end > at {
                let head = seq![rest.take(k@)];
                assert(before + (head + tail) =~= now + tail);
            }
            assert(goal == now + tail);
        }
        if end < v.len() {
            at = end + 1;
        } else {
            at = end;
            assert(v@.skip(at as int) =~= Seq::<char>::empty());
            assert(names(v@.skip(at as int), verbatim) =~= Seq::<Seq<char>>::empty());
        }
    }
    assert(v@.skip(at as int) =~= Seq::<char>::empty());
    assert(crate::text::texts(out@) + Seq::<Seq<char>>::empty() =~= crate::text::texts(out@));
    out
}

/// Walk names from a list of names.
fn walk(base: Vec<String>, rest: &Vec<String>) -> (r: Vec<String>)
    ensures
        crate::text::texts(r@) == walked_all(
            crate::text::texts(base@),
            crate::text::texts(rest@),
        ),
{
    let ghost t = crate::text::texts(rest@);
    let ghost goal = walked_all(crate::text::texts(base@), t);
    let mut out = base;
    let mut i: usize = 0;
    assert(t.skip(0) =~= t);
    while i < rest.len()
        invariant
            i <= rest@.len(),
            t == crate::text::texts(rest@),
            goal == walked_all(crate::text::texts(out@), t.skip(i as int)),
        decreases rest@.len() - i,
    {
        let name = rest[i].as_str();
        let ghost before = crate::text::texts(out@);
        proof {
            assert(t.skip(i as int)[0] == name@);
            assert(t.skip(i as int).skip(1) =~= t.skip(i + 1));
        }
        if str_eq(name, ".") {
        } else if str_eq(name, "..") {
            let n = out.len();
            if n > 0 {
                let last = out[n - 1].as_str();
                assert(before.last() == last@);
                if !str_eq(last, ".") && !str_eq(last, "..") {
                    out.pop();
                    assert(crate::text::texts(out@) =~= before.drop_last());
                }
            }
        } else {
            let s = name.to_owned();
            proof {
                crate::text::lemma_texts_push(out@, s);
            }
            out.push(s);
        }
        assert(crate::text::texts(out@) == walked(before, name@));
        i = i + 1;
    }
    assert(t.skip(i as int) =~= Seq::<Seq<char>>::empty());
    out
}

fn join_verbatim(b: &[char], t: &[char]) -> (r: String)
    requires
        t@.len() > 0,
    ensures
        r@ == verbatim_join(b@, t@),
{
    let k = prefix_end(b);
    let rooted = k < b.len() && sep(b[k]);
    let from = if sep(t[0]) {
        let none: Vec<String> = Vec::new();
        assert(crate::text::texts(none@) =~= Seq::<Seq<char>>::empty());
        none
    } else if rooted {
        split_names(b, k + 1, true)
    } else {
        split_names(b, k, true)
    };
    let rest = split_names(t, 0, false);
    assert(t@.skip(0) =~= t@);
    let all = walk(from, &rest);
    assert(crate::text::texts(all@).len() == all@.len());
    let mut s = sub_string(b, 0, k);
    assert(b@.subrange(0, k as int) =~= b@.take(k as int));
    if rooted || sep(t[0]) || all.len() > 0 {
        s.append("\\");
        s.append(join_strings(&all, "\\").as_str());
    }
    s
}

/// A relative path below a directory; an absolute one replaces it.
pub fn join_path(windows: bool, base: &str, rest: &str) -> (r: String)
    ensures
        r@ == path_join(windows, base@, rest@),
{
    let b = str_chars(base);
    let t = str_chars(rest);
    if windows {
        if prefix_end(&t) > 0 {
            return rest.to_owned();
        }
        if verbatim(&b) && t.len() > 0 {
            return join_verbatim(&b, &t);
        }
        if t.len() > 0 && sep(t[0]) {
            let kept = prefix_end(&b);
            let mut s = sub_string(&b, 0, kept);
            assert(b@.subrange(0, kept as int) =~= b@.take(kept as int));
            s.append(rest);
            return s;
        }
        let mut s = base.to_owned();
        if b.len() > 0 && !sep(b[b.len() - 1]) && !(drive(&b) && b.len() == 2) {
            s.append("\\");
        }
        s.append(rest);
        return s;
    }
    if t.len() > 0 && t[0] == '/' {
        return rest.to_owned();
    }
    let mut s = base.to_owned();
    if b.len() > 0 && b[b.len() - 1] != '/' {
        s.append("/");
    }
    s.append(rest);
    s
}

/// None of the names is `.` or `..`.
pub open spec fn no_dots(s: Seq<Seq<char>>) -> bool {
    forall|i: int| 0 <= i < s.len() ==> #[trigger] s[i] != "."@ && s[i] != ".."@
}

/// What is joined to a verbatim directory leaves no `.` or `..` of its own: if the
/// names of the directory hold none, neither do those of the result.
pub proof fn law_walking_resolves_dots(base: Seq<Seq<char>>, rest: Seq<Seq<char>>)
    requires
        no_dots(base),
    ensures
        no_dots(walked_all(base, rest)),
    decreases rest.len(),
{
    if rest.len() > 0 {
        assert(no_dots(walked(base, rest[0])));
        law_walking_resolves_dots(walked(base, rest[0]), rest.skip(1));
    }
}

} // verus!
