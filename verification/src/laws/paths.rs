//! Paths: what lies below a directory, and which paths stand alone, on both families of
//! platforms.

use vstd::prelude::*;

verus! {

/// Below a directory lies a name that does not begin with a separator: the directory,
/// one separator, the name. A path that begins with `/` is its own.
pub proof fn law_paths_below_directories(base: &str, rest: &str, r: String)
    requires
        call_ensures(crate::path::join_path, (false, base, rest), r),
    ensures
        rest@.len() > 0 && rest@[0] == '/' ==> r@ == rest@,
        base@.len() > 0 && base@.last() != '/' && !(rest@.len() > 0 && rest@[0] == '/') ==> r@
            == base@ + seq!['/'] + rest@,
        base@.len() > 0 && base@.last() == '/' && !(rest@.len() > 0 && rest@[0] == '/') ==> r@
            == base@ + rest@,
        base@.len() == 0 ==> r@ == rest@,
{
    reveal_strlit("/");
    assert("/"@ =~= seq!['/']);
    assert(base@.len() == 0 ==> base@ + rest@ =~= rest@);
}

/// On Windows a plain name below a directory that is no verbatim path is put behind
/// one backslash, unless a separator stands there.
pub proof fn law_windows_paths_below_directories(base: &str, rest: &str, r: String)
    requires
        call_ensures(crate::path::join_path, (true, base, rest), r),
        base@.len() > 2,
        !(base@[0] == '\\' && base@[1] == '\\' && base@[2] == '?'),
        forall|i: int|
            0 <= i < rest@.len() ==> #[trigger] rest@[i] != '/' && rest@[i] != '\\' && rest@[i]
                != ':',
    ensures
        base@.last() != '/' && base@.last() != '\\' ==> r@ == base@ + seq!['\\'] + rest@,
        base@.last() == '/' || base@.last() == '\\' ==> r@ == base@ + rest@,
{
    reveal_strlit("\\");
    assert("\\"@ =~= seq!['\\']);
    if rest@.len() >= 2 {
        assert(rest@[1] != ':');
    }
    if rest@.len() > 0 {
        assert(rest@[0] != '/' && rest@[0] != '\\');
    }
    assert(crate::path::prefix_len(rest@) == 0);
}

/// On Windows a path with a drive stands for itself whatever the directory; one that
/// begins with a single separator keeps the drive of the directory alone.
pub proof fn law_windows_rooted_paths(base: &str, rest: &str, r: String)
    requires
        call_ensures(crate::path::join_path, (true, base, rest), r),
        base@.len() >= 2,
        'A' <= base@[0] <= 'Z' || 'a' <= base@[0] <= 'z',
        base@[1] == ':',
    ensures
        rest@.len() >= 2 && ('A' <= rest@[0] <= 'Z' || 'a' <= rest@[0] <= 'z') && rest@[1] == ':'
            ==> r@ == rest@,
        rest@.len() > 0 && (rest@[0] == '/' || rest@[0] == '\\') && (rest@.len() == 1 || (rest@[1]
            != '/' && rest@[1] != '\\')) ==> r@ == base@.take(2) + rest@,
        base@.len() == 2 && rest@.len() == 0 ==> r@ == base@,
{
    assert(base@.len() == 2 && rest@.len() == 0 ==> base@ + rest@ =~= base@);
}

/// A name below a directory: no separator in it, and not one of the two that walk.
pub open spec fn plain_name(n: Seq<char>) -> bool {
    &&& n.len() > 0
    &&& forall|i: int| 0 <= i < n.len() ==> #[trigger] n[i] != '/' && n[i] != '\\' && n[i] != ':'
    &&& n != "."@
    &&& n != ".."@
}

proof fn lemma_sep(s: Seq<char>, verbatim: bool, k: nat)
    requires
        k <= s.len(),
        forall|i: int| 0 <= i < k ==> #[trigger] s[i] != '/' && s[i] != '\\',
        k < s.len() ==> s[k as int] == '\\',
    ensures
        crate::path::first_sep(s, verbatim) == k,
    decreases s.len(),
{
    if k > 0 {
        assert(s[0] != '/' && s[0] != '\\');
        assert forall|i: int| 0 <= i < k - 1 implies #[trigger] s.skip(1)[i] != '/' && s.skip(1)[i]
            != '\\' by {
            assert(s.skip(1)[i] == s[i + 1]);
        }
        lemma_sep(s.skip(1), verbatim, (k - 1) as nat);
    }
}

proof fn lemma_one_name(n: Seq<char>, verbatim: bool)
    requires
        n.len() > 0,
        forall|i: int| 0 <= i < n.len() ==> #[trigger] n[i] != '/' && n[i] != '\\',
    ensures
        crate::path::names(n, verbatim) == seq![n],
{
    lemma_sep(n, verbatim, n.len());
    assert(n.take(n.len() as int) =~= n);
    assert(seq![n] + Seq::<Seq<char>>::empty() =~= seq![n]);
}

#[verifier::spinoff_prover]
proof fn lemma_names(ns: Seq<Seq<char>>)
    requires
        ns.len() > 0,
        forall|i: int| 0 <= i < ns.len() ==> plain_name(#[trigger] ns[i]),
    ensures
        crate::path::names(crate::text::joined(ns, "\\"@), true) == ns,
    decreases ns.len(),
{
    reveal_strlit("\\");
    let s = crate::text::joined(ns, "\\"@);
    let n = ns[0];
    assert(plain_name(n));
    if ns.len() == 1 {
        crate::laws::wire::lemma_joined_one(ns, "\\"@);
        lemma_one_name(n, true);
        assert(seq![n] =~= ns);
    } else {
        let more = ns.skip(1);
        assert forall|i: int| 0 <= i < more.len() implies plain_name(#[trigger] more[i]) by {
            assert(more[i] == ns[i + 1]);
        }
        lemma_names(more);
        crate::laws::wire::lemma_joined_one(seq![n], "\\"@);
        assert(seq![n] + more =~= ns);
        crate::laws::wire::lemma_joined(seq![n], more, "\\"@);
        let k = n.len() as int;
        let t = crate::text::joined(more, "\\"@);
        assert(s == n + "\\"@ + t);
        assert forall|i: int| 0 <= i < k implies #[trigger] s[i] != '/' && s[i] != '\\' by {
            assert(s[i] == n[i]);
        }
        assert(s[k] == '\\');
        lemma_sep(s, true, n.len());
        assert(s.take(k) =~= n);
        assert(s.skip(k + 1) =~= t);
    }
}

/// Below a verbatim directory of a drive a name is put behind one backslash, `.` is the
/// directory and `..` the one above it.
pub proof fn law_verbatim_directories(
    drive: char,
    ns: Seq<Seq<char>>,
    base: &str,
    rest: &str,
    r: String,
)
    requires
        call_ensures(crate::path::join_path, (true, base, rest), r),
        'A' <= drive <= 'Z' || 'a' <= drive <= 'z',
        ns.len() > 0,
        forall|i: int| 0 <= i < ns.len() ==> plain_name(#[trigger] ns[i]),
        base@ == seq!['\\', '\\', '?', '\\', drive, ':', '\\'] + crate::text::joined(ns, "\\"@),
    ensures
        plain_name(rest@) ==> r@ == base@ + "\\"@ + rest@,
        rest@ == "."@ ==> r@ == base@,
        rest@ == ".."@ ==> r@ == seq!['\\', '\\', '?', '\\', drive, ':', '\\']
            + crate::text::joined(ns.drop_last(), "\\"@),
{
    reveal_strlit("\\");
    reveal_strlit(".");
    reveal_strlit("..");
    let pre = seq!['\\', '\\', '?', '\\', drive, ':', '\\'];
    let s = crate::text::joined(ns, "\\"@);
    let b = base@;
    assert(b[0] == '\\' && b[1] == '\\' && b[2] == '?' && b[3] == '\\' && b[4] == drive && b[5]
        == ':' && b[6] == '\\');
    assert(crate::path::prefix_len(b) == 6);
    assert(b.skip(7) =~= s);
    lemma_names(ns);
    if plain_name(rest@) || rest@ == "."@ || rest@ == ".."@ {
        assert(rest@[0] != '/' && rest@[0] != '\\');
        if rest@.len() >= 2 {
            assert(rest@[1] != ':');
        }
        assert(crate::path::prefix_len(rest@) == 0);
        lemma_one_name(rest@, false);
        let all = crate::path::walked_all(ns, seq![rest@]);
        assert(seq![rest@].skip(1) =~= Seq::empty());
        assert(seq![rest@][0] == rest@);
        assert(all == crate::path::walked(ns, rest@)) by {
            reveal_with_fuel(crate::path::walked_all, 2);
        }
        assert(plain_name(ns[ns.len() - 1]));
        assert(b.take(6) + "\\"@ =~= pre);
        if plain_name(rest@) {
            assert(all == ns.push(rest@));
            assert(ns.push(rest@).drop_last() =~= ns);
            assert(pre + (s + "\\"@ + rest@) =~= b + "\\"@ + rest@);
        }
    }
}

/// A network share and a device stand alone on Windows.
pub proof fn law_shares_stand_alone(server: Seq<char>, share: Seq<char>, p: &str, r: bool)
    requires
        call_ensures(crate::path::is_absolute, (true, p), r),
        server.len() > 0,
        share.len() > 0,
        forall|i: int| 0 <= i < server.len() ==> #[trigger] server[i] != '/' && server[i] != '\\',
        forall|i: int| 0 <= i < share.len() ==> #[trigger] share[i] != '/' && share[i] != '\\',
        p@ == seq!['\\', '\\'] + server + seq!['\\'] + share,
    ensures
        r,
{
    let s = p@;
    let k = server.len() as int;
    assert(s[0] == '\\' && s[1] == '\\');
    if !crate::path::is_verbatim(s) && !crate::path::is_device(s) {
        let a = s.skip(2);
        assert forall|i: int| 0 <= i < k implies #[trigger] a[i] != '/' && a[i] != '\\' by {
            assert(a[i] == server[i]);
        }
        assert(a[k] == '\\');
        lemma_sep(a, false, server.len());
        let b = s.skip(2 + k + 1);
        assert(b =~= share);
        lemma_sep(b, false, share.len());
    }
}

/// Which paths stand alone: on Unix those that begin with `/`; on Windows a drive with
/// a separator behind it does, a drive alone and a bare name do not.
pub proof fn law_absolute_paths(windows: bool, p: &str, r: bool)
    requires
        call_ensures(crate::path::is_absolute, (windows, p), r),
    ensures
        !windows ==> (r <==> p@.len() > 0 && p@[0] == '/'),
        windows && p@.len() >= 3 && 'a' <= p@[0] <= 'z' && p@[1] == ':' ==> (r <==> (p@[2] == '/'
            || p@[2] == '\\')),
        windows && p@.len() == 2 && 'a' <= p@[0] <= 'z' && p@[1] == ':' ==> !r,
        windows && p@.len() > 0 && p@[0] != '/' && p@[0] != '\\' && !(p@.len() >= 2 && p@[1]
            == ':') ==> !r,
{
}

} // verus!
