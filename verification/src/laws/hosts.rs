//! Hosts: what `ssh -G` prints of an alias is where and how the connection is made,
//! and who is trusted.

use vstd::prelude::*;

use crate::ssh_config::{Environment, ResolvedHost};
use crate::text::{begins_with, opt_text, texts};

verus! {

// -- lines ----------------------------------------------------------------------------------

/// A text reads as lines: each is ended by a newline, or by a carriage return and a
/// newline; the last one may lack its end.
pub open spec fn reads(text: Seq<char>, ls: Seq<Seq<char>>) -> bool
    decreases ls.len(),
{
    if ls.len() == 0 {
        text.len() == 0
    } else {
        let n = ls[0].len() as int;
        ||| ls.len() == 1 && text == ls[0] && text.len() > 0
        ||| begins_with(text, ls[0] + seq!['\n']) && reads(text.skip(n + 1), ls.skip(1))
        ||| begins_with(text, ls[0] + seq!['\r', '\n']) && reads(text.skip(n + 2), ls.skip(1))
    }
}

/// A line that ends where it ends.
pub open spec fn plain_line(l: Seq<char>) -> bool {
    !l.contains('\n') && !(l.len() > 0 && l.last() == '\r')
}

/// The values that the lines give a key, in order: what stands behind the key and a
/// space.
pub open spec fn values(ls: Seq<Seq<char>>, key: Seq<char>) -> Seq<Seq<char>>
    decreases ls.len(),
{
    if ls.len() == 0 {
        Seq::empty()
    } else {
        let rest = values(ls.drop_last(), key);
        let l = ls.last();
        if begins_with(l, key + seq![' ']) {
            rest.push(l.skip((key.len() + 1) as int))
        } else {
            rest
        }
    }
}

/// A value as printed stands for `x`: bare, without white space and quotes around
/// it, or in double quotes.
pub open spec fn stands_for(v: Seq<char>, x: Seq<char>) -> bool {
    ||| v == x && bare_value(v)
    ||| v == seq!['"'] + x + seq!['"']
}

/// A value without white space around it and without quotes in front.
pub open spec fn bare_value(v: Seq<char>) -> bool {
    v.len() > 0 ==> {
        &&& !crate::text::is_white(v[0])
        &&& !crate::text::is_white(v[v.len() - 1])
        &&& v[0] != '"' && v[0] != '\''
    }
}

proof fn lemma_unquoted(v: Seq<char>, x: Seq<char>)
    requires
        stands_for(v, x),
    ensures
        crate::ssh_config::unquoted(v) == x,
{
    if v.len() > 0 {
        if v == seq!['"'] + x + seq!['"'] {
            assert(v[0] == '"');
            assert(v.last() == '"');
        } else {
            assert(!crate::text::is_white(v[0]));
            assert(!crate::text::is_white(v[v.len() - 1]));
        }
        assert(crate::text::trimmed_start(v) == v);
        assert(crate::text::trimmed_end(v) == v);
        assert(crate::text::trimmed(v) == v);
        if v == seq!['"'] + x + seq!['"'] {
            assert(v.subrange(1, v.len() - 1) =~= x);
        }
    } else {
        assert(crate::text::trimmed(v) =~= v);
    }
}

proof fn lemma_lines(t: Seq<char>, ls: Seq<Seq<char>>)
    requires
        reads(t, ls),
        forall|i: int| 0 <= i < ls.len() ==> plain_line(#[trigger] ls[i]),
    ensures
        crate::ssh_config::lines_of(t) == ls,
    decreases ls.len(),
{
    if ls.len() == 0 {
        assert(crate::ssh_config::lines_of(t) =~= ls);
    } else {
        let l = ls[0];
        let rest = ls.skip(1);
        let n = l.len() as int;
        assert(plain_line(l));
        assert forall|i: int| 0 <= i < rest.len() implies plain_line(#[trigger] rest[i]) by {
            assert(rest[i] == ls[i + 1]);
        }
        assert(seq![l] + rest =~= ls);
        assert(crate::ssh_config::without_cr(l) == l);
        if begins_with(t, l + seq!['\n']) && reads(t.skip(n + 1), rest) {
            lemma_lines(t.skip(n + 1), rest);
            assert((l + seq!['\n']).take(n) =~= l);
            lemma_line_end(t, l, l + seq!['\n'], n);
            assert(t.take(n) =~= l);
        } else if begins_with(t, l + seq!['\r', '\n']) && reads(t.skip(n + 2), rest) {
            lemma_lines(t.skip(n + 2), rest);
            assert((l + seq!['\r', '\n']).take(n) =~= l);
            lemma_line_end(t, l, l + seq!['\r', '\n'], n + 1);
            assert(t.take(n + 1) =~= l + seq!['\r']);
            assert((l + seq!['\r']).drop_last() =~= l);
        } else {
            crate::text::lemma_first_index(t, '\n');
            let k = crate::text::first_index(t, '\n');
            if k < t.len() {
                assert(l.contains(l[k]));
            }
            assert(seq![l] =~= ls);
        }
    }
}

proof fn lemma_line_end(t: Seq<char>, l: Seq<char>, head: Seq<char>, k: int)
    requires
        begins_with(t, head),
        head.len() == k + 1,
        k == l.len() || (k == l.len() + 1 && head[k - 1] == '\r'),
        head.take(l.len() as int) == l,
        head[k] == '\n',
        !l.contains('\n'),
    ensures
        crate::text::first_index(t, '\n') == k,
        k < t.len(),
        forall|i: int| 0 <= i < l.len() ==> t[i] == l[i],
        k > l.len() ==> t[k - 1] == '\r',
{
    let p = t.take(k + 1);
    assert(p == head);
    assert forall|i: int| 0 <= i < k implies t[i] != '\n' by {
        assert(p[i] == t[i]);
        if i < l.len() {
            assert(head.take(l.len() as int)[i] == head[i]);
            assert(l.contains(l[i]));
        }
    }
    assert(t[k] == p[k]);
    crate::text::lemma_first_index_unique(t, '\n', k);
    assert forall|i: int| 0 <= i < l.len() implies t[i] == l[i] by {
        assert(p[i] == t[i]);
        assert(head.take(l.len() as int)[i] == head[i]);
    }
    if k > l.len() {
        assert(p[k - 1] == t[k - 1]);
    }
}

// -- fields ---------------------------------------------------------------------------------

proof fn lemma_push_line(
    f: crate::ssh_config::Fields,
    ls: Seq<Seq<char>>,
    l: Seq<char>,
    env: crate::ssh_config::EnvironmentView,
)
    ensures
        crate::ssh_config::with_lines(f, ls.push(l), env) == crate::ssh_config::with_line(
            crate::ssh_config::with_lines(f, ls, env),
            l,
            env,
        ),
    decreases ls.len(),
{
    let all = ls.push(l);
    if ls.len() == 0 {
        assert(all.skip(1) =~= Seq::empty());
        let g = crate::ssh_config::with_line(f, l, env);
        assert(crate::ssh_config::with_lines(g, all.skip(1), env) == g);
        assert(all[0] == l);
    } else {
        assert(all[0] == ls[0]);
        assert(all.skip(1) =~= ls.skip(1).push(l));
        lemma_push_line(crate::ssh_config::with_line(f, ls[0], env), ls.skip(1), l, env);
    }
}

/// A line gives a key its value exactly when it begins with the key and a space.
proof fn lemma_key(l: Seq<char>, key: Seq<char>)
    requires
        !key.contains(' '),
    ensures
        ({
            let k = crate::text::first_index(l, ' ');
            &&& 0 <= k <= l.len()
            &&& begins_with(l, key + seq![' ']) <==> k < l.len() && l.take(k) == key
            &&& begins_with(l, key + seq![' ']) ==> k == key.len()
        }),
{
    let head = key + seq![' '];
    let n = key.len() as int;
    let k = crate::text::first_index(l, ' ');
    crate::text::lemma_first_index(l, ' ');
    if begins_with(l, head) {
        assert forall|i: int| 0 <= i < n implies l[i] != ' ' by {
            assert(l.take(head.len() as int)[i] == head[i]);
            assert(key.contains(key[i]));
        }
        assert(l.take(head.len() as int)[n] == ' ');
        crate::text::lemma_first_index_unique(l, ' ', n);
        assert(l.take(n) =~= key) by {
            assert forall|i: int| 0 <= i < n implies l[i] == key[i] by {
                assert(l.take(head.len() as int)[i] == head[i]);
            }
        }
    }
    if k < l.len() && l.take(k) == key {
        assert(l.take(head.len() as int) =~= head);
    }
}

spec fn keys_differ() -> bool {
    &&& "hostname"@.len() == 8 && "port"@.len() == 4 && "user"@.len() == 4
    &&& "connecttimeout"@.len() == 14 && "identityfile"@.len() == 12
    &&& "userknownhostsfile"@.len() == 18 && "globalknownhostsfile"@.len() == 20
    &&& "stricthostkeychecking"@.len() == 21 && "proxycommand"@.len() == 12
    &&& "proxyjump"@.len() == 9
    &&& "port"@[0] != "user"@[0] && "identityfile"@[0] != "proxycommand"@[0]
    &&& !"hostname"@.contains(' ') && !"port"@.contains(' ') && !"user"@.contains(' ')
    &&& !"connecttimeout"@.contains(' ') && !"identityfile"@.contains(' ')
    &&& !"userknownhostsfile"@.contains(' ') && !"globalknownhostsfile"@.contains(' ')
    &&& !"stricthostkeychecking"@.contains(' ') && !"proxycommand"@.contains(' ')
    &&& !"proxyjump"@.contains(' ')
}

proof fn lemma_keys()
    ensures
        keys_differ(),
{
    reveal_strlit("hostname");
    reveal_strlit("port");
    reveal_strlit("user");
    reveal_strlit("connecttimeout");
    reveal_strlit("identityfile");
    reveal_strlit("userknownhostsfile");
    reveal_strlit("globalknownhostsfile");
    reveal_strlit("stricthostkeychecking");
    reveal_strlit("proxycommand");
    reveal_strlit("proxyjump");
}

/// Where a path of the output lies: below the home directory when it begins with
/// `~/` and that is known.
pub open spec fn located(
    path: Seq<char>,
    home: Option<Seq<char>>,
    windows: bool,
) -> Seq<char> {
    match home {
        Some(h) => if begins_with(path, seq!['~', '/']) {
            crate::path::path_join(windows, h, path.skip(2))
        } else {
            path
        },
        None => path,
    }
}

proof fn lemma_located(path: Seq<char>, env: crate::ssh_config::EnvironmentView)
    ensures
        crate::ssh_config::tilde_expanded(path, env) == located(path, env.home, env.windows),
{
    if path.len() >= 2 {
        assert(begins_with(path, seq!['~', '/']) <==> path[0] == '~' && path[1] == '/') by {
            if path[0] == '~' && path[1] == '/' {
                assert(path.take(2) =~= seq!['~', '/']);
            }
            if begins_with(path, seq!['~', '/']) {
                assert(path.take(2)[0] == '~' && path.take(2)[1] == '/');
            }
        }
    }
}

/// What the lines say of each key.
proof fn lemma_fields(ls: Seq<Seq<char>>, env: crate::ssh_config::EnvironmentView)
    ensures
        ({
            let f = crate::ssh_config::with_lines(crate::ssh_config::no_fields(), ls, env);
            let names = values(ls, "hostname"@);
            let ports = values(ls, "port"@);
            let users = values(ls, "user"@);
            let waits = values(ls, "connecttimeout"@);
            let ids = values(ls, "identityfile"@);
            let stricts = values(ls, "stricthostkeychecking"@);
            &&& f.hostname == if names.len() > 0 {
                Some(crate::ssh_config::unquoted(names.last()))
            } else {
                None
            }
            &&& f.port == if ports.len() > 0 {
                crate::ssh_config::port_of(ports.last())
            } else {
                22
            }
            &&& f.user == if users.len() > 0 {
                Some(crate::ssh_config::unquoted(users.last()))
            } else {
                None
            }
            &&& f.connect_timeout == if waits.len() > 0 {
                crate::ssh_config::timeout_of(waits.last())
            } else {
                None
            }
            &&& f.identity_files.len() == ids.len()
            &&& forall|i: int|
                0 <= i < ids.len() ==> #[trigger] f.identity_files[i] == located(
                    crate::ssh_config::unquoted(ids[i]),
                    env.home,
                    env.windows,
                )
            &&& f.strict_host_keys == if stricts.len() > 0 {
                crate::ssh_config::is_strict(stricts.last())
            } else {
                true
            }
        }),
    decreases ls.len(),
{
    lemma_keys();
    if ls.len() > 0 {
        let most = ls.drop_last();
        let l = ls.last();
        assert(most.push(l) =~= ls);
        lemma_fields(most, env);
        lemma_push_line(crate::ssh_config::no_fields(), most, l, env);
        lemma_key(l, "hostname"@);
        lemma_key(l, "port"@);
        lemma_key(l, "user"@);
        lemma_key(l, "connecttimeout"@);
        lemma_key(l, "identityfile"@);
        lemma_key(l, "stricthostkeychecking"@);
        let k = crate::text::first_index(l, ' ');
        lemma_located(crate::ssh_config::unquoted(l.skip(k + 1)), env);
    }
}

/// The proxy of the last line that gives one.
proof fn lemma_proxy_fields(ls: Seq<Seq<char>>, env: crate::ssh_config::EnvironmentView)
    ensures
        ({
            let f = crate::ssh_config::with_lines(crate::ssh_config::no_fields(), ls, env);
            let cmds = values(ls, "proxycommand"@);
            let jumps = values(ls, "proxyjump"@);
            &&& cmds.len() == 0 ==> f.proxy_command is None
            &&& cmds.len() > 0 && crate::ssh_config::unquoted(cmds.last()) != "none"@
                ==> f.proxy_command == Some(crate::ssh_config::unquoted(cmds.last()))
            &&& (forall|i: int|
                0 <= i < cmds.len() ==> crate::ssh_config::unquoted(#[trigger] cmds[i]) == "none"@)
                ==> f.proxy_command is None
            &&& jumps.len() == 0 ==> f.proxy_jump is None
            &&& jumps.len() > 0 && crate::ssh_config::unquoted(jumps.last()) != "none"@
                ==> f.proxy_jump == Some(crate::ssh_config::unquoted(jumps.last()))
            &&& (forall|i: int|
                0 <= i < jumps.len() ==> crate::ssh_config::unquoted(#[trigger] jumps[i])
                    == "none"@) ==> f.proxy_jump is None
        }),
    decreases ls.len(),
{
    lemma_keys();
    if ls.len() > 0 {
        let most = ls.drop_last();
        let l = ls.last();
        assert(most.push(l) =~= ls);
        lemma_proxy_fields(most, env);
        lemma_push_line(crate::ssh_config::no_fields(), most, l, env);
        lemma_key(l, "proxycommand"@);
        lemma_key(l, "proxyjump"@);
        let cmds = values(ls, "proxycommand"@);
        let jumps = values(ls, "proxyjump"@);
        let mc = values(most, "proxycommand"@);
        let mj = values(most, "proxyjump"@);
        if forall|i: int|
            0 <= i < cmds.len() ==> crate::ssh_config::unquoted(#[trigger] cmds[i]) == "none"@ {
            assert forall|i: int| 0 <= i < mc.len() implies crate::ssh_config::unquoted(
                #[trigger] mc[i],
            ) == "none"@ by {
                assert(cmds[i] == mc[i]);
            }
            if cmds.len() > 0 {
                assert(crate::ssh_config::unquoted(cmds[cmds.len() - 1]) == "none"@);
            }
        }
        if forall|i: int|
            0 <= i < jumps.len() ==> crate::ssh_config::unquoted(#[trigger] jumps[i]) == "none"@ {
            assert forall|i: int| 0 <= i < mj.len() implies crate::ssh_config::unquoted(
                #[trigger] mj[i],
            ) == "none"@ by {
                assert(jumps[i] == mj[i]);
            }
            if jumps.len() > 0 {
                assert(crate::ssh_config::unquoted(jumps[jumps.len() - 1]) == "none"@);
            }
        }
    }
}

// -- known hosts ----------------------------------------------------------------------------

/// The paths of all known_hosts lines, in order: every value of the line, taken from
/// the home directory where it begins with `~/`.
pub open spec fn known_paths(
    ls: Seq<Seq<char>>,
    home: Option<Seq<char>>,
    windows: bool,
) -> Seq<Seq<char>>
    decreases ls.len(),
{
    if ls.len() == 0 {
        Seq::empty()
    } else {
        let l = ls.last();
        let rest = known_paths(ls.drop_last(), home, windows);
        let user = seq!["userknownhostsfile"@, "globalknownhostsfile"@];
        if begins_with(l, user[0] + seq![' ']) {
            rest + words_at(l.skip((user[0].len() + 1) as int), home, windows)
        } else if begins_with(l, user[1] + seq![' ']) {
            rest + words_at(l.skip((user[1].len() + 1) as int), home, windows)
        } else {
            rest
        }
    }
}

/// The paths of one line.
pub open spec fn words_at(
    value: Seq<char>,
    home: Option<Seq<char>>,
    windows: bool,
) -> Seq<Seq<char>> {
    crate::ssh_config::value_list(value).map_values(|p: Seq<char>| located(p, home, windows))
}

proof fn lemma_known(ls: Seq<Seq<char>>, env: crate::ssh_config::EnvironmentView)
    ensures
        crate::ssh_config::with_lines(
            crate::ssh_config::no_fields(),
            ls,
            env,
        ).known_hosts_files == known_paths(ls, env.home, env.windows),
    decreases ls.len(),
{
    lemma_keys();
    if ls.len() > 0 {
        let most = ls.drop_last();
        let l = ls.last();
        assert(most.push(l) =~= ls);
        lemma_known(most, env);
        lemma_push_line(crate::ssh_config::no_fields(), most, l, env);
        lemma_key(l, "userknownhostsfile"@);
        lemma_key(l, "globalknownhostsfile"@);
        let k = crate::text::first_index(l, ' ');
        let v = l.skip(k + 1);
        let list = crate::ssh_config::value_list(v);
        assert forall|i: int| 0 <= i < list.len() implies #[trigger] crate::ssh_config::all_expanded(
            list,
            env,
        )[i] == words_at(v, env.home, env.windows)[i] by {
            lemma_located(list[i], env);
        }
        assert(crate::ssh_config::all_expanded(list, env) =~= words_at(
            v,
            env.home,
            env.windows,
        ));
    }
}

/// A list with values written bare, without white space and quotes, or in double quotes,
/// and put together with spaces, is the list of those values.
pub proof fn law_value_lists(
    vs: Seq<Seq<char>>,
    xs: Seq<Seq<char>>,
    value: &str,
    r: Vec<String>,
)
    requires
        call_ensures(crate::ssh_config::split_values, (value,), r),
        value@ == crate::text::joined(vs, seq![' ']),
        vs.len() == xs.len(),
        forall|i: int| 0 <= i < vs.len() ==> listed(#[trigger] vs[i], xs[i]),
    ensures
        texts(r@) == xs,
{
    lemma_list(vs, xs);
}

proof fn lemma_list(vs: Seq<Seq<char>>, xs: Seq<Seq<char>>)
    requires
        vs.len() == xs.len(),
        forall|i: int| 0 <= i < vs.len() ==> listed(#[trigger] vs[i], xs[i]),
    ensures
        crate::ssh_config::value_list(crate::text::joined(vs, seq![' '])) == xs,
{
    assert forall|i: int| 0 <= i < vs.len() implies written_value(#[trigger] vs[i]) by {
        assert(listed(vs[i], xs[i]));
    }
    lemma_segments(vs);
    assert forall|i: int| 0 <= i < vs.len() implies crate::ssh_config::unquoted(
        #[trigger] vs[i],
    ) == xs[i] by {
        assert(listed(vs[i], xs[i]));
        if vs[i] == xs[i] {
            assert(plain_word(vs[i]) || vs[i].len() > xs[i].len());
            assert(!crate::text::is_white(vs[i][0]));
            assert(!crate::text::is_white(vs[i][vs[i].len() - 1]));
        }
        lemma_unquoted(vs[i], xs[i]);
    }
    assert(crate::ssh_config::value_list(crate::text::joined(vs, seq![' '])) =~= xs);
}

/// A value in a list: bare, or in double quotes.
pub open spec fn listed(v: Seq<char>, x: Seq<char>) -> bool {
    ||| v == x && v.len() > 0 && plain_word(v)
    ||| v == seq!['"'] + x + seq!['"'] && !x.contains('"')
}

spec fn written_value(v: Seq<char>) -> bool {
    exists|x: Seq<char>| listed(v, x)
}

/// A word without white space and quotes.
pub open spec fn plain_word(w: Seq<char>) -> bool {
    forall|i: int|
        0 <= i < w.len() ==> !crate::text::is_white(#[trigger] w[i]) && w[i] != '"' && w[i] != '\''
}

proof fn lemma_word(w: Seq<char>, cur: Seq<char>, rest: Seq<char>)
    requires
        plain_word(w),
    ensures
        crate::ssh_config::segments(w + rest, None, cur) == crate::ssh_config::segments(
            rest,
            None,
            cur + w,
        ),
    decreases w.len(),
{
    if w.len() == 0 {
        assert(w + rest =~= rest);
        assert(cur + w =~= cur);
    } else {
        let t = w + rest;
        assert(t[0] == w[0]);
        assert(!crate::text::is_white(w[0]));
        assert(t.skip(1) =~= w.skip(1) + rest);
        assert forall|i: int| 0 <= i < w.skip(1).len() implies !crate::text::is_white(
            #[trigger] w.skip(1)[i],
        ) && w.skip(1)[i] != '"' && w.skip(1)[i] != '\'' by {
            assert(w.skip(1)[i] == w[i + 1]);
        }
        lemma_word(w.skip(1), cur.push(w[0]), rest);
        assert(cur.push(w[0]) + w.skip(1) =~= cur + w);
    }
}

/// Inside double quotes everything up to the next one belongs to the value.
proof fn lemma_quoted(x: Seq<char>, cur: Seq<char>, rest: Seq<char>)
    requires
        !x.contains('"'),
    ensures
        crate::ssh_config::segments(x + seq!['"'] + rest, Some('"'), cur)
            == crate::ssh_config::segments(rest, None, cur + x + seq!['"']),
    decreases x.len(),
{
    let t = x + seq!['"'] + rest;
    if x.len() == 0 {
        assert(t[0] == '"');
        assert(t.skip(1) =~= rest);
        assert(cur.push('"') =~= cur + x + seq!['"']);
    } else {
        assert(t[0] == x[0]);
        assert(x.contains(x[0]));
        assert(t.skip(1) =~= x.skip(1) + seq!['"'] + rest);
        assert forall|c: char| x.skip(1).contains(c) implies x.contains(c) by {
            let i = choose|i: int| 0 <= i < x.skip(1).len() && x.skip(1)[i] == c;
            assert(x[i + 1] == c);
        }
        lemma_quoted(x.skip(1), cur.push(x[0]), rest);
        assert(cur.push(x[0]) + x.skip(1) + seq!['"'] =~= cur + x + seq!['"']);
    }
}

/// A value is read whole when nothing was read before it.
proof fn lemma_value(v: Seq<char>, rest: Seq<char>)
    requires
        written_value(v),
    ensures
        crate::ssh_config::segments(v + rest, None, Seq::empty()) == crate::ssh_config::segments(
            rest,
            None,
            v,
        ),
        v.len() > 0,
{
    let none = Seq::<char>::empty();
    let x = choose|x: Seq<char>| listed(v, x);
    assert(listed(v, x));
    if v == x && v.len() > 0 && plain_word(v) {
        lemma_word(v, none, rest);
        assert(none + v =~= v);
    } else {
        let t = v + rest;
        assert(t[0] == '"');
        assert(t.skip(1) =~= x + seq!['"'] + rest);
        lemma_quoted(x, none.push('"'), rest);
        assert(none.push('"') + x + seq!['"'] =~= v);
    }
}

proof fn lemma_segments(vs: Seq<Seq<char>>)
    requires
        forall|i: int| 0 <= i < vs.len() ==> written_value(#[trigger] vs[i]),
    ensures
        crate::ssh_config::segments(crate::text::joined(vs, seq![' ']), None, Seq::empty()) == vs,
{
    lemma_segments_then(vs, Seq::empty());
    let t = crate::text::joined(vs, seq![' ']);
    assert(t + Seq::<char>::empty() =~= t);
    if vs.len() == 0 {
        assert(crate::ssh_config::segments(t, None, Seq::empty()) =~= vs);
    } else {
        let last = vs.last();
        assert(written_value(vs[vs.len() - 1]));
        lemma_value(last, Seq::empty());
        assert(crate::ssh_config::segments(Seq::empty(), None, last) =~= seq![last]);
        assert(vs.drop_last() + seq![last] =~= vs);
    }
}

/// The values in front, and the last one still being read.
proof fn lemma_segments_then(vs: Seq<Seq<char>>, rest: Seq<char>)
    requires
        forall|i: int| 0 <= i < vs.len() ==> written_value(#[trigger] vs[i]),
    ensures
        vs.len() > 0 ==> crate::ssh_config::segments(
            crate::text::joined(vs, seq![' ']) + rest,
            None,
            Seq::empty(),
        ) == vs.drop_last() + crate::ssh_config::segments(rest, None, vs.last()),
    decreases vs.len(),
{
    if vs.len() == 1 {
        let w = vs[0];
        assert(written_value(w));
        lemma_value(w, rest);
        let s = crate::ssh_config::segments(rest, None, w);
        assert(vs.drop_last() + s =~= s);
    } else if vs.len() > 1 {
        let most = vs.drop_last();
        let w = vs.last();
        assert(written_value(vs[vs.len() - 1]));
        assert forall|i: int| 0 <= i < most.len() implies written_value(#[trigger] most[i]) by {
            assert(most[i] == vs[i]);
        }
        let tail = seq![' '] + (w + rest);
        lemma_segments_then(most, tail);
        let head = crate::text::joined(most, seq![' ']);
        assert(crate::text::joined(vs, seq![' ']) + rest =~= head + tail);
        assert(most.last().len() > 0) by {
            assert(written_value(most[most.len() - 1]));
            lemma_value(most[most.len() - 1], rest);
        }
        assert(tail[0] == ' ');
        assert(tail.skip(1) =~= w + rest);
        assert(crate::text::is_white(' '));
        lemma_value(w, rest);
        let s = crate::ssh_config::segments(rest, None, w);
        assert(crate::ssh_config::segments(tail, None, most.last()) == seq![most.last()] + s);
        assert(most.drop_last() + (seq![most.last()] + s) =~= most + s);
    }
}

// -- the resolved host ----------------------------------------------------------------------

/// A text with a character that no number has.
pub open spec fn no_number(s: Seq<char>) -> bool {
    exists|i: int| 0 <= i < s.len() && !('0' <= #[trigger] s[i] <= '9') && s[i] != '+'
}

pub proof fn lemma_no_number(s: Seq<char>, max: nat)
    requires
        no_number(s),
    ensures
        crate::text::uint_text(s, max) is None,
{
    let i = choose|i: int| 0 <= i < s.len() && !('0' <= #[trigger] s[i] <= '9') && s[i] != '+';
    if s[0] == '+' {
        assert(!crate::text::is_digit(s.skip(1)[i - 1]));
    } else {
        assert(!crate::text::is_digit(s[i]));
    }
}

/// A host is what its output says: the last host name, port, user, timeout and
/// strictness; every identity file and every known_hosts file, in order, taken from
/// the home directory where the output says `~/`; defaults where it says nothing;
/// and an error without a host name.
pub proof fn law_output_describes_the_host(
    host: &str,
    text: &str,
    env: &Environment,
    ls: Seq<Seq<char>>,
    r: Result<ResolvedHost, crate::Error>,
)
    requires
        call_ensures(crate::ssh_config::parse_ssh_g_output, (host, text, env), r),
        reads(text@, ls),
        forall|i: int| 0 <= i < ls.len() ==> plain_line(#[trigger] ls[i]),
    ensures
        ({
            let names = values(ls, "hostname"@);
            let ports = values(ls, "port"@);
            let users = values(ls, "user"@);
            let waits = values(ls, "connecttimeout"@);
            let ids = values(ls, "identityfile"@);
            let stricts = values(ls, "stricthostkeychecking"@);
            let home = opt_text(env.home);
            let known = known_paths(ls, home, env.windows);
            &&& r is Ok <==> names.len() > 0
            &&& r matches Ok(h) ==> {
                &&& forall|x: Seq<char>| stands_for(names.last(), x) ==> h.hostname@ == x
                &&& ports.len() == 0 ==> h.port == 22
                &&& forall|n: u16|
                    ports.len() > 0 && ports.last() == #[trigger] crate::text::dec_nat(n as nat)
                        ==> h.port == n
                &&& ports.len() > 0 && no_number(ports.last()) ==> h.port == 22
                &&& forall|x: Seq<char>|
                    users.len() > 0 && stands_for(users.last(), x) ==> h.user@ == x
                &&& users.len() == 0 ==> h.user@ == match (env.user, env.username) {
                    (Some(u), _) => u@,
                    (None, Some(u)) => u@,
                    (None, None) => "root"@,
                }
                &&& waits.len() == 0 ==> h.connect_timeout is None
                &&& forall|n: u64|
                    waits.len() > 0 && waits.last() == #[trigger] crate::text::dec_nat(n as nat)
                        ==> h.connect_timeout == if n > 0 {
                        Some(n)
                    } else {
                        None
                    }
                &&& waits.len() > 0 && no_number(waits.last()) ==> h.connect_timeout is None
                &&& ids.len() > 0 ==> h.identity_files@.len() == ids.len()
                &&& forall|i: int, x: Seq<char>|
                    0 <= i < ids.len() && #[trigger] stands_for(ids[i], x) ==> h.identity_files@[i]@
                        == located(x, home, env.windows)
                &&& known.len() > 0 ==> texts(h.known_hosts_files@) == known
                &&& stricts.len() == 0 ==> h.strict_host_keys
                &&& forall|x: Seq<char>|
                    stricts.len() > 0 && stands_for(stricts.last(), x) ==> (!h.strict_host_keys <==> (x
                        == "no"@ || x == "off"@ || x == "accept-new"@))
            }
            &&& names.len() == 0 ==> (r matches Err(crate::Error::Resolve { host: shown, reason })
                && shown@ == host@ && reason@ == "ssh -G output has no hostname"@)
        }),
{
    let e = env@;
    let names = values(ls, "hostname"@);
    let ports = values(ls, "port"@);
    let users = values(ls, "user"@);
    let waits = values(ls, "connecttimeout"@);
    let ids = values(ls, "identityfile"@);
    let stricts = values(ls, "stricthostkeychecking"@);
    let known = known_paths(ls, e.home, env.windows);
    lemma_lines(text@, ls);
    lemma_fields(ls, e);
    lemma_known(ls, e);
    let f = crate::ssh_config::with_lines(crate::ssh_config::no_fields(), ls, e);
    if let Ok(h) = r {
        let hv = h@;
        if ports.len() > 0 && no_number(ports.last()) {
            lemma_no_number(ports.last(), u16::MAX as nat);
        }
        if waits.len() > 0 && no_number(waits.last()) {
            lemma_no_number(waits.last(), u64::MAX as nat);
        }
        assert forall|x: Seq<char>| stands_for(names.last(), x) implies h.hostname@ == x by {
            lemma_unquoted(names.last(), x);
        }
        assert forall|n: u16|
            ports.len() > 0 && ports.last() == #[trigger] crate::text::dec_nat(n as nat) implies h.port
            == n by {
            crate::text::law_decimal_round_trip(n as nat, u16::MAX as nat);
        }
        assert forall|x: Seq<char>| users.len() > 0 && stands_for(users.last(), x) implies h.user@
            == x by {
            lemma_unquoted(users.last(), x);
        }
        assert forall|n: u64|
            waits.len() > 0 && waits.last() == #[trigger] crate::text::dec_nat(
                n as nat,
            ) implies h.connect_timeout == if n > 0 {
            Some(n)
        } else {
            None
        } by {
            crate::text::law_decimal_round_trip(n as nat, u64::MAX as nat);
        }
        assert(texts(h.identity_files@).len() == h.identity_files@.len());
        assert forall|i: int, x: Seq<char>|
            0 <= i < ids.len() && #[trigger] stands_for(
                ids[i],
                x,
            ) implies h.identity_files@[i]@ == located(x, e.home, env.windows) by {
            lemma_unquoted(ids[i], x);
            assert(texts(h.identity_files@)[i] == h.identity_files@[i]@);
            assert(f.identity_files[i] == hv.identity_files[i]);
        }
        assert forall|x: Seq<char>|
            stricts.len() > 0 && stands_for(stricts.last(), x) implies (!h.strict_host_keys <==> (x
            == "no"@ || x == "off"@ || x == "accept-new"@)) by {
            lemma_unquoted(stricts.last(), x);
        }
    }
}

/// With a home directory that is an absolute path, no identity file of the result
/// begins with `~/`, and one that was printed so lies in the home directory.
pub proof fn law_home_is_expanded(
    host: &str,
    text: &str,
    env: &Environment,
    ls: Seq<Seq<char>>,
    i: int,
    rest: Seq<char>,
    h: ResolvedHost,
)
    requires
        call_ensures(
            crate::ssh_config::parse_ssh_g_output,
            (host, text, env),
            Ok::<_, crate::Error>(h),
        ),
        reads(text@, ls),
        forall|i: int| 0 <= i < ls.len() ==> plain_line(#[trigger] ls[i]),
        !env.windows,
        env.home matches Some(hm) && hm@.len() > 1 && hm@[0] == '/' && hm@.last() != '/',
        0 <= i < values(ls, "identityfile"@).len(),
        stands_for(values(ls, "identityfile"@)[i], seq!['~', '/'] + rest),
        rest.len() > 0,
        rest[0] != '/',
    ensures
        h.identity_files@[i]@ == env.home->0@ + seq!['/'] + rest,
        h.identity_files@[i]@[0] == '/',
{
    law_output_describes_the_host(host, text, env, ls, Ok::<_, crate::Error>(h));
    let x = seq!['~', '/'] + rest;
    let hm = env.home->0@;
    assert(x.take(2) =~= seq!['~', '/']);
    assert(x.skip(2) =~= rest);
    assert(stands_for(values(ls, "identityfile"@)[i], x));
    reveal_strlit("/");
    assert(hm + "/"@ + rest =~= hm + seq!['/'] + rest);
}

/// A known_hosts line adds its values to those of the lines in front of it, in order, each
/// taken from the home directory where it begins with `~/`.
pub proof fn law_known_hosts_are_located(
    host: &str,
    text: &str,
    env: &Environment,
    before: Seq<Seq<char>>,
    key: Seq<char>,
    vs: Seq<Seq<char>>,
    xs: Seq<Seq<char>>,
    h: ResolvedHost,
    i: int,
)
    requires
        call_ensures(
            crate::ssh_config::parse_ssh_g_output,
            (host, text, env),
            Ok::<_, crate::Error>(h),
        ),
        key == "userknownhostsfile"@ || key == "globalknownhostsfile"@,
        reads(text@, before.push(key + seq![' '] + crate::text::joined(vs, seq![' ']))),
        forall|i: int| 0 <= i < before.len() ==> plain_line(#[trigger] before[i]),
        plain_line(key + seq![' '] + crate::text::joined(vs, seq![' '])),
        vs.len() == xs.len(),
        forall|i: int| 0 <= i < vs.len() ==> listed(#[trigger] vs[i], xs[i]),
        0 <= i < xs.len(),
    ensures
        ({
            let first = known_paths(before, opt_text(env.home), env.windows);
            &&& h.known_hosts_files@.len() == first.len() + xs.len()
            &&& forall|j: int| 0 <= j < first.len() ==> (#[trigger] h.known_hosts_files@[j])@ == first[j]
            &&& h.known_hosts_files@[first.len() + i]@ == located(
                xs[i],
                opt_text(env.home),
                env.windows,
            )
        }),
{
    let e = env@;
    let value = crate::text::joined(vs, seq![' ']);
    let l = key + seq![' '] + value;
    let ls = before.push(l);
    let first = known_paths(before, e.home, e.windows);
    assert forall|j: int| 0 <= j < ls.len() implies plain_line(#[trigger] ls[j]) by {
        if j < before.len() {
            assert(ls[j] == before[j]);
        }
    }
    lemma_lines(text@, ls);
    lemma_known(ls, e);
    lemma_keys();
    lemma_list(vs, xs);
    assert(ls.drop_last() =~= before);
    assert(l.take((key.len() + 1) as int) =~= key + seq![' ']);
    assert(l.skip((key.len() + 1) as int) =~= value);
    if key == "globalknownhostsfile"@ {
        lemma_key(l, "userknownhostsfile"@);
        lemma_key(l, "globalknownhostsfile"@);
    }
    let more = words_at(value, e.home, e.windows);
    let known = known_paths(ls, e.home, e.windows);
    assert(known == first + more);
    assert(more.len() == xs.len());
    assert(more[i] == located(xs[i], e.home, e.windows));
    let shown = texts(h.known_hosts_files@);
    assert(h@.known_hosts_files == shown);
    assert(shown == known);
    assert(shown.len() == h.known_hosts_files@.len());
    assert(shown[first.len() + i] == h.known_hosts_files@[first.len() + i]@);
    assert forall|j: int| 0 <= j < first.len() implies (#[trigger] h.known_hosts_files@[j])@
        == first[j] by {
        assert(shown[j] == h.known_hosts_files@[j]@);
    }
}

/// With an absolute home directory nothing is left to be taken from it: no identity file
/// and no known_hosts file of the result begins with `~/`, whatever the output says.
pub proof fn law_no_tilde_is_left(
    host: &str,
    text: &str,
    env: &Environment,
    h: ResolvedHost,
    i: int,
)
    requires
        call_ensures(
            crate::ssh_config::parse_ssh_g_output,
            (host, text, env),
            Ok::<_, crate::Error>(h),
        ),
        !env.windows,
        env.home matches Some(hm) && hm@.len() > 0 && hm@[0] == '/',
    ensures
        0 <= i < h.identity_files@.len() ==> !begins_with(h.identity_files@[i]@, seq!['~', '/']),
        0 <= i < h.known_hosts_files@.len() ==> !begins_with(
            h.known_hosts_files@[i]@,
            seq!['~', '/'],
        ),
{
    let e = env@;
    let home = env.home->0@;
    let ls = crate::ssh_config::lines_of(text@);
    lemma_fields(ls, e);
    lemma_known(ls, e);
    let f = crate::ssh_config::with_lines(crate::ssh_config::no_fields(), ls, e);
    reveal_strlit(".ssh");
    reveal_strlit("id_ed25519");
    reveal_strlit("id_ecdsa");
    reveal_strlit("id_rsa");
    reveal_strlit("known_hosts");
    lemma_below(home, ".ssh"@);
    let dir = e.home_ssh();
    lemma_below(dir, "id_ed25519"@);
    lemma_below(dir, "id_ecdsa"@);
    lemma_below(dir, "id_rsa"@);
    lemma_below(dir, "known_hosts"@);
    let ids = texts(h.identity_files@);
    let known = texts(h.known_hosts_files@);
    assert(ids.len() == h.identity_files@.len() && known.len() == h.known_hosts_files@.len());
    assert(h@.identity_files == ids && h@.known_hosts_files == known);
    if 0 <= i < ids.len() {
        assert(ids[i] == h.identity_files@[i]@);
        if f.identity_files.len() > 0 {
            assert(ids[i] == f.identity_files[i]);
            lemma_no_tilde(crate::ssh_config::unquoted(values(ls, "identityfile"@)[i]), home);
        } else {
            assert(ids[i][0] == '/');
            lemma_absolute(ids[i]);
        }
    }
    if 0 <= i < known.len() {
        assert(known[i] == h.known_hosts_files@[i]@);
        if f.known_hosts_files.len() > 0 {
            lemma_known_no_tilde(ls, home, i);
        } else {
            assert(known[i][0] == '/');
            lemma_absolute(known[i]);
        }
    }
}

proof fn lemma_absolute(p: Seq<char>)
    requires
        p.len() > 0,
        p[0] == '/',
    ensures
        !begins_with(p, seq!['~', '/']),
{
    if begins_with(p, seq!['~', '/']) {
        assert(p.take(2)[0] == '~');
    }
}

proof fn lemma_below(base: Seq<char>, rest: Seq<char>)
    requires
        base.len() > 0,
        base[0] == '/',
    ensures
        crate::path::path_join(false, base, rest).len() > 0,
        crate::path::path_join(false, base, rest)[0] == '/',
{
}

proof fn lemma_no_tilde(p: Seq<char>, home: Seq<char>)
    requires
        home.len() > 0,
        home[0] == '/',
    ensures
        !begins_with(located(p, Some(home), false), seq!['~', '/']),
{
    if begins_with(p, seq!['~', '/']) {
        lemma_below(home, p.skip(2));
        lemma_absolute(crate::path::path_join(false, home, p.skip(2)));
    }
}

proof fn lemma_known_no_tilde(ls: Seq<Seq<char>>, home: Seq<char>, i: int)
    requires
        home.len() > 0,
        home[0] == '/',
        0 <= i < known_paths(ls, Some(home), false).len(),
    ensures
        !begins_with(known_paths(ls, Some(home), false)[i], seq!['~', '/']),
    decreases ls.len(),
{
    if ls.len() > 0 {
        let l = ls.last();
        let rest = known_paths(ls.drop_last(), Some(home), false);
        let n = if begins_with(l, "userknownhostsfile"@ + seq![' ']) {
            "userknownhostsfile"@.len()
        } else {
            "globalknownhostsfile"@.len()
        };
        if i < rest.len() {
            lemma_known_no_tilde(ls.drop_last(), home, i);
        } else {
            let list = crate::ssh_config::value_list(l.skip((n + 1) as int));
            lemma_no_tilde(list[i - rest.len()], home);
        }
    }
}

/// A single value is what it stands for, and a single path is taken from the home directory
/// when it begins with `~/` and the directory is known; any other path stays.
pub proof fn law_single_values(
    v: &str,
    x: Seq<char>,
    r: String,
    path: &str,
    env: &Environment,
    p: String,
)
    requires
        call_ensures(crate::ssh_config::unquote, (v,), r),
        call_ensures(crate::ssh_config::expand_tilde, (path, env), p),
    ensures
        stands_for(v@, x) ==> r@ == x,
        !begins_with(path@, seq!['~', '/']) ==> p@ == path@,
        env.home is None ==> p@ == path@,
        !env.windows && env.home is Some && env.home->0@.len() > 0 && env.home->0@.last() != '/'
            && begins_with(path@, seq!['~', '/']) && (path@.len() > 2 ==> path@[2] != '/') ==> p@
            == env.home->0@ + path@.skip(1),
{
    if stands_for(v@, x) {
        lemma_unquoted(v@, x);
    }
    lemma_located(path@, env@);
    if begins_with(path@, seq!['~', '/']) {
        reveal_strlit("/");
        assert(path@.take(2)[1] == '/');
        if env.home is Some {
            let h = env.home->0@;
            if path@.len() > 2 {
                assert(path@.skip(2)[0] == path@[2]);
            }
            assert(h + "/"@ + path@.skip(2) =~= h + path@.skip(1));
        }
    }
}

// -- the way to the host --------------------------------------------------------------------

/// A part of a ProxyCommand: text without `%`, or a token.
pub enum Part {
    Text(Seq<char>),
    Token(char),
}

/// A ProxyCommand written with its tokens.
pub open spec fn written(ps: Seq<Part>) -> Seq<char>
    decreases ps.len(),
{
    if ps.len() == 0 {
        Seq::empty()
    } else {
        (match ps[0] {
            Part::Text(t) => t,
            Part::Token(c) => seq!['%', c],
        }) + written(ps.skip(1))
    }
}

/// What a ProxyCommand means: `%h` and `%n` are the host name, `%p` the port, other
/// tokens stay.
pub open spec fn meant(ps: Seq<Part>, hostname: Seq<char>, port: u16) -> Seq<char>
    decreases ps.len(),
{
    if ps.len() == 0 {
        Seq::empty()
    } else {
        (match ps[0] {
            Part::Text(t) => t,
            Part::Token(c) => if c == 'h' || c == 'n' {
                hostname
            } else if c == 'p' {
                crate::text::dec_nat(port as nat)
            } else {
                seq!['%', c]
            },
        }) + meant(ps.skip(1), hostname, port)
    }
}

/// The parts of a command: text holds no `%`, and no token is one.
pub open spec fn parts(ps: Seq<Part>) -> bool {
    forall|i: int|
        0 <= i < ps.len() ==> match #[trigger] ps[i] {
            Part::Text(t) => !t.contains('%'),
            Part::Token(c) => c != '%',
        }
}

spec fn subst(ps: Seq<Part>, token: char, by: Seq<char>) -> Seq<Part> {
    ps.map_values(
        |p: Part|
            if p == Part::Token(token) {
                Part::Text(by)
            } else {
                p
            },
    )
}

proof fn lemma_replaced_text(t: Seq<char>, rest: Seq<char>, token: char, by: Seq<char>)
    requires
        !t.contains('%'),
    ensures
        crate::ssh_config::replaced(t + rest, token, by) == t + crate::ssh_config::replaced(
            rest,
            token,
            by,
        ),
    decreases t.len(),
{
    let r = crate::ssh_config::replaced(rest, token, by);
    if t.len() == 0 {
        assert(t + rest =~= rest);
        assert(t + r =~= r);
    } else {
        assert(t.contains(t[0]));
        assert forall|c: char| t.skip(1).contains(c) implies t.contains(c) by {
            let i = choose|i: int| 0 <= i < t.skip(1).len() && t.skip(1)[i] == c;
            assert(t[i + 1] == c);
        }
        lemma_replaced_text(t.skip(1), rest, token, by);
        assert((t + rest)[0] == t[0]);
        assert((t + rest).skip(1) =~= t.skip(1) + rest);
        assert(seq![t[0]] + (t.skip(1) + r) =~= t + r);
    }
}

proof fn lemma_replaced_parts(ps: Seq<Part>, token: char, by: Seq<char>)
    requires
        parts(ps),
        token != '%',
    ensures
        crate::ssh_config::replaced(written(ps), token, by) == written(subst(ps, token, by)),
    decreases ps.len(),
{
    let to = subst(ps, token, by);
    if ps.len() == 0 {
        assert(crate::ssh_config::replaced(written(ps), token, by) =~= written(to));
    } else {
        let more = ps.skip(1);
        assert forall|i: int| 0 <= i < more.len() implies match #[trigger] more[i] {
            Part::Text(t) => !t.contains('%'),
            Part::Token(c) => c != '%',
        } by {
            assert(more[i] == ps[i + 1]);
        }
        lemma_replaced_parts(more, token, by);
        assert(to.skip(1) =~= subst(more, token, by));
        let rest = written(more);
        let all = written(ps);
        match ps[0] {
            Part::Text(t) => {
                lemma_replaced_text(t, rest, token, by);
            },
            Part::Token(c) => {
                assert(all[0] == '%' && all[1] == c);
                assert(all.skip(2) =~= rest);
                if c != token {
                    let tail = seq![c] + rest;
                    assert(all.skip(1) =~= tail);
                    assert(!seq![c].contains('%'));
                    lemma_replaced_text(seq![c], rest, token, by);
                    let r = crate::ssh_config::replaced(rest, token, by);
                    assert(seq!['%'] + (seq![c] + r) =~= seq!['%', c] + r);
                }
            },
        }
    }
}

proof fn lemma_meant(ps: Seq<Part>, hostname: Seq<char>, port: u16)
    ensures
        written(
            subst(
                subst(subst(ps, 'h', hostname), 'p', crate::text::dec_nat(port as nat)),
                'n',
                hostname,
            ),
        ) == meant(ps, hostname, port),
    decreases ps.len(),
{
    let digits = crate::text::dec_nat(port as nat);
    let to = subst(subst(subst(ps, 'h', hostname), 'p', digits), 'n', hostname);
    if ps.len() > 0 {
        lemma_meant(ps.skip(1), hostname, port);
        assert(to.skip(1) =~= subst(
            subst(subst(ps.skip(1), 'h', hostname), 'p', digits),
            'n',
            hostname,
        ));
    }
}

proof fn lemma_subst_parts(ps: Seq<Part>, token: char, by: Seq<char>)
    requires
        parts(ps),
        !by.contains('%'),
    ensures
        parts(subst(ps, token, by)),
{
    let to = subst(ps, token, by);
    assert forall|i: int| 0 <= i < to.len() implies match #[trigger] to[i] {
        Part::Text(t) => !t.contains('%'),
        Part::Token(c) => c != '%',
    } by {
        assert(match ps[i] {
            Part::Text(t) => !t.contains('%'),
            Part::Token(c) => c != '%',
        });
    }
}

proof fn lemma_proxy(ps: Seq<Part>, hostname: Seq<char>, port: u16)
    requires
        parts(ps),
        !hostname.contains('%'),
    ensures
        crate::ssh_config::proxy_expanded(written(ps), hostname, port) == meant(
            ps,
            hostname,
            port,
        ),
{
    let digits = crate::text::dec_nat(port as nat);
    crate::text::lemma_dec_nat_reads_back(port as nat);
    assert(!digits.contains('%')) by {
        if digits.contains('%') {
            let i = choose|i: int| 0 <= i < digits.len() && digits[i] == '%';
            assert(crate::text::is_digit(digits[i]));
        }
    }
    lemma_replaced_parts(ps, 'h', hostname);
    let a = subst(ps, 'h', hostname);
    lemma_subst_parts(ps, 'h', hostname);
    lemma_replaced_parts(a, 'p', digits);
    lemma_subst_parts(a, 'p', digits);
    lemma_replaced_parts(subst(a, 'p', digits), 'n', hostname);
    lemma_meant(ps, hostname, port);
}

/// Every token of a ProxyCommand is replaced by what it stands for, wherever it
/// stands, and nothing else changes.
pub proof fn law_tokens_are_replaced(
    ps: Seq<Part>,
    cmd: &str,
    hostname: &str,
    port: u16,
    r: String,
)
    requires
        call_ensures(crate::ssh_config::expand_proxy_command, (cmd, hostname, port), r),
        cmd@ == written(ps),
        parts(ps),
        !hostname@.contains('%'),
    ensures
        r@ == meant(ps, hostname@, port),
{
    lemma_proxy(ps, hostname@, port);
}

/// How the host is reached: by the last ProxyCommand of the output with its tokens
/// replaced; else through the jump; else by TCP to the host name and the port, with
/// the timeout or fifteen seconds. `none` is no command and no jump.
pub proof fn law_output_describes_the_way(
    host: &str,
    text: &str,
    env: &Environment,
    ls: Seq<Seq<char>>,
    h: ResolvedHost,
    t: crate::ssh::Transport,
    ps: Seq<Part>,
    jump: Seq<char>,
)
    requires
        call_ensures(
            crate::ssh_config::parse_ssh_g_output,
            (host, text, env),
            Ok::<_, crate::Error>(h),
        ),
        reads(text@, ls),
        forall|i: int| 0 <= i < ls.len() ==> plain_line(#[trigger] ls[i]),
        call_ensures(crate::ssh::transport, (&h,), t),
        parts(ps),
        !h.hostname@.contains('%'),
    ensures
        ({
            let cmds = values(ls, "proxycommand"@);
            let jumps = values(ls, "proxyjump"@);
            let no_cmd = forall|i: int|
                0 <= i < cmds.len() ==> stands_for(#[trigger] cmds[i], "none"@);
            let no_jump = forall|i: int|
                0 <= i < jumps.len() ==> stands_for(#[trigger] jumps[i], "none"@);
            &&& cmds.len() > 0 && stands_for(cmds.last(), written(ps)) && written(ps) != "none"@
                ==> (t matches crate::ssh::Transport::Proxy(c) && c@ == meant(
                ps,
                h.hostname@,
                h.port,
            ))
            &&& no_cmd && jumps.len() > 0 && stands_for(jumps.last(), jump) && jump != "none"@
                && !jump.contains('%') ==> (t matches crate::ssh::Transport::Proxy(c) && c@
                == "ssh -W ["@ + h.hostname@ + "]:"@ + crate::text::dec_nat(h.port as nat) + " "@
                + jump)
            &&& no_cmd && no_jump ==> (
            t matches crate::ssh::Transport::Tcp { hostname, port, timeout_secs } && hostname@
                == h.hostname@ && port == h.port && timeout_secs == (match h.connect_timeout {
                Some(s) => s,
                None => 15u64,
            }))
        }),
{
    let e = env@;
    let cmds = values(ls, "proxycommand"@);
    let jumps = values(ls, "proxyjump"@);
    let f = crate::ssh_config::with_lines(crate::ssh_config::no_fields(), ls, e);
    lemma_lines(text@, ls);
    lemma_fields(ls, e);
    lemma_proxy_fields(ls, e);
    if cmds.len() > 0 && stands_for(cmds.last(), written(ps)) && written(ps) != "none"@ {
        lemma_unquoted(cmds.last(), written(ps));
        lemma_proxy(ps, h.hostname@, h.port);
    }
    if forall|i: int| 0 <= i < cmds.len() ==> stands_for(#[trigger] cmds[i], "none"@) {
        assert forall|i: int| 0 <= i < cmds.len() implies crate::ssh_config::unquoted(
            #[trigger] cmds[i],
        ) == "none"@ by {
            lemma_unquoted(cmds[i], "none"@);
        }
        assert(f.proxy_command is None);
        if jumps.len() > 0 && stands_for(jumps.last(), jump) && jump != "none"@ && !jump.contains(
            '%',
        ) {
            lemma_unquoted(jumps.last(), jump);
            crate::ssh_config::law_jump_command(f, h.hostname@, e);
        }
        if forall|i: int| 0 <= i < jumps.len() ==> stands_for(#[trigger] jumps[i], "none"@) {
            assert forall|i: int| 0 <= i < jumps.len() implies crate::ssh_config::unquoted(
                #[trigger] jumps[i],
            ) == "none"@ by {
                lemma_unquoted(jumps[i], "none"@);
            }
            assert(f.proxy_jump is None);
        }
    }
}

// -- what the output leaves out --------------------------------------------------------------

/// Without configured files ssh tries three keys of the user's `.ssh` directory and
/// looks at the known hosts there.
pub proof fn law_default_files(
    host: &str,
    env: &Environment,
    ids: Vec<String>,
    h: ResolvedHost,
    home: Seq<char>,
)
    requires
        call_ensures(crate::ssh_config::default_identity_files, (env,), ids),
        call_ensures(crate::ssh_config::fallback, (host, env), h),
        !env.windows,
        opt_text(env.home) == Some(home),
        home.len() > 0,
        home.last() != '/',
    ensures
        ids@.len() == 3,
        ids@[0]@ == home + "/.ssh/id_ed25519"@,
        ids@[1]@ == home + "/.ssh/id_ecdsa"@,
        ids@[2]@ == home + "/.ssh/id_rsa"@,
        texts(h.identity_files@) == texts(ids@),
        h.known_hosts_files@.len() == 1,
        h.known_hosts_files@[0]@ == home + "/.ssh/known_hosts"@,
        h.hostname@ == host@,
        h.port == 22,
        h.user@ == (match (env.user, env.username) {
            (Some(u), _) => u@,
            (None, Some(u)) => u@,
            (None, None) => "root"@,
        }),
        h.proxy_command is None,
        h.connect_timeout is None,
        h.strict_host_keys,
{
    reveal_strlit("/");
    reveal_strlit(".ssh");
    reveal_strlit("id_ed25519");
    reveal_strlit("id_ecdsa");
    reveal_strlit("id_rsa");
    reveal_strlit("known_hosts");
    reveal_strlit("/.ssh/id_ed25519");
    reveal_strlit("/.ssh/id_ecdsa");
    reveal_strlit("/.ssh/id_rsa");
    reveal_strlit("/.ssh/known_hosts");
    let dir = home + "/"@ + ".ssh"@;
    assert(env@.home_ssh() == dir);
    assert(dir.last() == 'h');
    let t = texts(ids@);
    assert(t.len() == ids@.len());
    assert(t[0] == ids@[0]@ && t[1] == ids@[1]@ && t[2] == ids@[2]@);
    assert(ids@[0]@ =~= home + "/.ssh/id_ed25519"@);
    assert(ids@[1]@ =~= home + "/.ssh/id_ecdsa"@);
    assert(ids@[2]@ =~= home + "/.ssh/id_rsa"@);
    assert(h@.known_hosts_files.len() == h.known_hosts_files@.len());
    assert(h@.known_hosts_files[0] == h.known_hosts_files@[0]@);
    assert(h.known_hosts_files@[0]@ =~= home + "/.ssh/known_hosts"@);
    assert(h@.proxy_command is None);
}

/// What the output leaves out is what an unresolved host has.
pub proof fn law_output_without_files(
    host: &str,
    text: &str,
    env: &Environment,
    ls: Seq<Seq<char>>,
    h: ResolvedHost,
    plain: ResolvedHost,
)
    requires
        call_ensures(
            crate::ssh_config::parse_ssh_g_output,
            (host, text, env),
            Ok::<_, crate::Error>(h),
        ),
        call_ensures(crate::ssh_config::fallback, (host, env), plain),
        reads(text@, ls),
        forall|i: int| 0 <= i < ls.len() ==> plain_line(#[trigger] ls[i]),
    ensures
        values(ls, "identityfile"@).len() == 0 ==> texts(h.identity_files@) == texts(
            plain.identity_files@,
        ),
        known_paths(ls, opt_text(env.home), env.windows).len() == 0 ==> texts(
            h.known_hosts_files@,
        ) == texts(plain.known_hosts_files@),
{
    lemma_lines(text@, ls);
    lemma_fields(ls, env@);
    lemma_known(ls, env@);
    assert(h@.identity_files == texts(h.identity_files@));
    assert(plain@.identity_files == texts(plain.identity_files@));
}

/// A reply of `ssh -G` that is no output leaves the host as it was named, and the reason
/// is told; output is read.
pub proof fn law_unusable_replies(
    host: &str,
    reply: &crate::ssh_config::SshGReply,
    env: &Environment,
    r: (ResolvedHost, Option<crate::Error>),
    g: Result<ResolvedHost, crate::Error>,
    plain: ResolvedHost,
    text: &str,
    read: Result<ResolvedHost, crate::Error>,
)
    requires
        call_ensures(crate::ssh_config::run_ssh_g, (host, reply, env), g),
        call_ensures(crate::ssh_config::resolve, (host, reply, env), r),
        call_ensures(crate::ssh_config::fallback, (host, env), plain),
        call_ensures(crate::ssh_config::parse_ssh_g_output, (host, text, env), read),
    ensures
        g is Ok <==> r.1 is None,
        g matches Ok(h) ==> r.0@ == h@,
        g matches Err(e) ==> r.0@ == plain@ && (r.1 matches Some(x) && x@ == e@),
        reply is TimedOut ==> r.0@ == plain@ && (r.1 matches Some(
            crate::Error::Resolve { host: named, reason },
        ) && named@ == host@ && reason@ == "ssh -G timed out"@),
        *reply matches crate::ssh_config::SshGReply::CannotRun(why) ==> r.0@ == plain@ && (
        r.1 matches Some(crate::Error::Resolve { host: named, reason }) && named@ == host@
            && reason@ == "cannot run ssh: "@ + why@),
        *reply matches crate::ssh_config::SshGReply::Failed(status, err) ==> r.0@ == plain@ && (
        r.1 matches Some(crate::Error::Resolve { host: named, reason }) && named@ == host@
            && reason@ == "ssh -G exited with "@ + status@ + ": "@ + crate::text::lossy_text(
            err@,
        )),
        *reply matches crate::ssh_config::SshGReply::Output(out) ==> crate::text::lossy_text(out@)
            == text@ ==> {
            &&& read matches Ok(h) ==> r.0@ == h@ && r.1 is None
            &&& read matches Err(e) ==> r.0@ == plain@ && (r.1 matches Some(x) && x@ == e@)
        },
{
}

// -- trust ----------------------------------------------------------------------------------

/// The known_hosts files that are consulted are exactly those that are there, other
/// than `/dev/null`, in order.
pub proof fn law_usable_files(files: &Vec<String>, present: &Vec<bool>, r: Vec<String>)
    requires
        files@.len() == present@.len(),
        call_ensures(crate::ssh::usable_files, (files, present), r),
    ensures
        exists|at: Seq<int>| #[trigger] picks(at, texts(files@), present@, texts(r@)),
{
    lemma_usable(texts(files@), present@);
    let at = choose|at: Seq<int>|
        picks(at, texts(files@), present@, crate::ssh::usable(texts(files@), present@));
    assert(picks(at, texts(files@), present@, texts(r@)));
}

/// `some` are the files at the rising places `at`, which are all places of files that
/// are present and not `/dev/null`.
pub open spec fn picks(
    at: Seq<int>,
    files: Seq<Seq<char>>,
    present: Seq<bool>,
    some: Seq<Seq<char>>,
) -> bool {
    &&& at.len() == some.len()
    &&& forall|i: int, j: int| 0 <= i < j < at.len() ==> at[i] < at[j]
    &&& forall|i: int|
        0 <= i < at.len() ==> 0 <= #[trigger] at[i] < files.len() && some[i] == files[at[i]]
    &&& forall|k: int|
        0 <= k < files.len() ==> (at.contains(k) <==> present[k] && #[trigger] files[k]
            != "/dev/null"@)
}

proof fn lemma_usable(files: Seq<Seq<char>>, present: Seq<bool>)
    requires
        files.len() <= present.len(),
    ensures
        exists|at: Seq<int>| #[trigger]
            picks(at, files, present, crate::ssh::usable(files, present)),
    decreases files.len(),
{
    if files.len() == 0 {
        assert(picks(Seq::empty(), files, present, crate::ssh::usable(files, present)));
    } else {
        let most = files.drop_last();
        let n = files.len() - 1;
        lemma_usable(most, present);
        let before = crate::ssh::usable(most, present);
        let some = crate::ssh::usable(files, present);
        let at = choose|at: Seq<int>| picks(at, most, present, before);
        assert forall|k: int| 0 <= k < most.len() implies files[k] == most[k] by {}
        if files.last() != "/dev/null"@ && present[n] {
            let to = at.push(n);
            assert forall|k: int| 0 <= k < files.len() implies (to.contains(k) <==> present[k]
                && #[trigger] files[k] != "/dev/null"@) by {
                if k < n {
                    assert(most[k] == files[k]);
                    if at.contains(k) {
                        let i = choose|i: int| 0 <= i < at.len() && at[i] == k;
                        assert(to[i] == k);
                    }
                    if to.contains(k) {
                        let i = choose|i: int| 0 <= i < to.len() && to[i] == k;
                        assert(at[i] == k);
                    }
                } else {
                    assert(to[at.len() as int] == n);
                }
            }
            assert forall|i: int| 0 <= i < to.len() implies 0 <= #[trigger] to[i] < files.len()
                && some[i] == files[to[i]] by {
                if i < at.len() {
                    assert(to[i] == at[i]);
                    assert(some[i] == before[i]);
                }
            }
            assert(picks(to, files, present, some));
        } else {
            assert forall|k: int| 0 <= k < files.len() implies (at.contains(k) <==> present[k]
                && #[trigger] files[k] != "/dev/null"@) by {
                if k < n {
                    assert(most[k] == files[k]);
                } else if at.contains(k) {
                    let i = choose|i: int| 0 <= i < at.len() && at[i] == k;
                    assert(at[i] < most.len());
                }
            }
            assert forall|i: int| 0 <= i < at.len() implies 0 <= #[trigger] at[i] < files.len()
                && some[i] == files[at[i]] by {
                assert(most[at[i]] == files[at[i]]);
            }
            assert(picks(at, files, present, some));
        }
    }
}

/// The server's key is accepted exactly when the first file that knows the host records
/// it, or when none knows the host and it need not be known. A rejection names the host
/// and the file with the other key, or the files that do not know the host.
#[verifier::spinoff_prover]
pub proof fn law_server_keys(
    host: &str,
    port: u16,
    files: &Vec<String>,
    checks: &Vec<crate::ssh::KeyCheck>,
    strict: bool,
    r: Option<String>,
    k: int,
)
    requires
        files@.len() == checks@.len(),
        call_ensures(crate::ssh::check_server_key, (host, port, files, checks, strict), r),
        0 <= k <= checks@.len(),
        forall|i: int| 0 <= i < k ==> checks@[i] == crate::ssh::KeyCheck::Unknown,
        k < checks@.len() ==> checks@[k] != crate::ssh::KeyCheck::Unknown,
    ensures
        ({
            let name = host@ + ":"@ + crate::text::dec_nat(port as nat);
            &&& r is None <==> {
                ||| k < checks@.len() && checks@[k] is Known
                ||| k == checks@.len() && (k == 0 || !strict)
            }
            &&& k < checks@.len() && checks@[k] is Changed ==> (r matches Some(why) && why@
                == "host key of "@ + name + " changed ("@ + files@[k]@ + " line "@
                + crate::text::dec_nat(checks@[k]->0 as nat)
                + "); remove the stale entry or verify the server"@)
            &&& k < checks@.len() && checks@[k] is Failed ==> (r matches Some(why) && why@
                == "host key of "@ + name + " changed ("@ + files@[k]@ + " line "@ + "?"@
                + "); remove the stale entry or verify the server"@)
            &&& k == checks@.len() && k > 0 && strict ==> (r matches Some(why) && why@
                == "host key of "@ + name + " not found in "@ + crate::text::joined(
                texts(files@),
                ", "@,
            ) + "; connect once with `ssh "@ + host@ + " true` to record it"@)
        }),
{
    let fs = texts(files@);
    lemma_settled(checks@, k);
    assert(fs.len() == files@.len());
    assert(opt_text(r) == crate::ssh::key_rejection(host@, port, fs, checks@, strict));
    assert(r is Some <==> opt_text(r) is Some);
    if k < checks@.len() {
        assert(fs[k] == files@[k]@);
        match checks@[k] {
            crate::ssh::KeyCheck::Changed(line) => {
                assert(opt_text(r) == Some(
                    crate::ssh::changed_reason(host@, port, fs[k], Some(line)),
                ));
            },
            crate::ssh::KeyCheck::Failed => {
                assert(opt_text(r) == Some(crate::ssh::changed_reason(host@, port, fs[k], None)));
            },
            _ => {},
        }
    }
}

proof fn lemma_settled(checks: Seq<crate::ssh::KeyCheck>, k: int)
    requires
        0 <= k <= checks.len(),
        forall|i: int| 0 <= i < k ==> checks[i] == crate::ssh::KeyCheck::Unknown,
        k < checks.len() ==> checks[k] != crate::ssh::KeyCheck::Unknown,
    ensures
        crate::ssh::settled_at(checks) == k,
    decreases checks.len(),
{
    if checks.len() > 0 && checks[0] == crate::ssh::KeyCheck::Unknown {
        assert forall|i: int| 0 <= i < k - 1 implies checks.skip(1)[i]
            == crate::ssh::KeyCheck::Unknown by {
            assert(checks.skip(1)[i] == checks[i + 1]);
        }
        lemma_settled(checks.skip(1), k - 1);
    }
}

/// A connection that fails is told with where it went and why; a rejected key is a
/// matter of the host key.
pub proof fn law_connection_failures(f: crate::ssh::ConnectFailure, r: crate::Error)
    requires
        call_ensures(crate::ssh::connect_error, (f,), r),
    ensures
        f matches crate::ssh::ConnectFailure::Proxy { cmd, reason } ==> (
        r matches crate::Error::Connect(w) && w@ == "proxycommand "@ + crate::text::debug_text(
            cmd@,
        ) + ": "@ + reason@),
        f matches crate::ssh::ConnectFailure::TcpTimeout { hostname, port } ==> (
        r matches crate::Error::Connect(w) && w@ == "connect to "@ + ("("@
            + crate::text::debug_text(hostname@) + ", "@ + crate::text::dec_nat(port as nat)
            + ")"@) + " timed out"@),
        f matches crate::ssh::ConnectFailure::Tcp { hostname, port, reason } ==> (
        r matches crate::Error::Connect(w) && w@ == "connect to "@ + ("("@
            + crate::text::debug_text(hostname@) + ", "@ + crate::text::dec_nat(port as nat)
            + ")"@) + ": "@ + reason@),
        f matches crate::ssh::ConnectFailure::Handshake { rejected, reason } ==> {
            &&& rejected matches Some(why) ==> (r matches crate::Error::HostKey(w) && w@ == why@)
            &&& rejected is None ==> (r matches crate::Error::Connect(w) && w@ == reason@)
        },
{
}

/// A ProxyCommand is run by the shell of the platform.
pub proof fn law_proxy_shell(windows: bool, r: (&'static str, &'static str))
    requires
        call_ensures(crate::ssh::proxy_shell, (windows,), r),
    ensures
        windows ==> r.0@ == "cmd"@ && r.1@ == "/C"@,
        !windows ==> r.0@ == "sh"@ && r.1@ == "-c"@,
{
}

// -- identities -----------------------------------------------------------------------------

/// An authentication starts with nothing tried: the agent's first identity comes first,
/// without any the first file, and without any file nothing is left.
pub proof fn law_first_identity(
    agent: usize,
    files: &Vec<String>,
    auth: crate::ssh::Auth,
    n: crate::ssh::NextIdentity,
    inside: bool,
)
    requires
        call_ensures(crate::ssh::Auth::new, (agent, files), auth),
        call_ensures(crate::ssh::Auth::next, (&auth,), n),
        call_ensures(crate::ssh::Auth::accepted, (&auth,), inside),
    ensures
        !inside,
        agent > 0 ==> n == crate::ssh::NextIdentity::Agent(0),
        agent == 0 && files@.len() > 0 ==> (n matches crate::ssh::NextIdentity::File(p) && p@
            == files@[0]@),
        agent == 0 && files@.len() == 0 ==> n is Nothing,
{
    assert(texts(files@).len() == files@.len());
    if files@.len() > 0 {
        assert(texts(files@)[0] == files@[0]@);
    }
}

/// What is tried next depends on what came of the last: an accepted identity ends it,
/// any other makes way for the one behind it, the files behind the agent's identities.
pub proof fn law_next_identity(
    auth: &mut crate::ssh::Auth,
    t: crate::ssh::Tried,
    before: crate::ssh::NextIdentity,
    after: crate::ssh::NextIdentity,
    inside: bool,
)
    requires
        old(auth)@.wf(),
        call_ensures(crate::ssh::Auth::next, (&*old(auth),), before),
        call_ensures(crate::ssh::Auth::record, (auth, t), ()),
        call_ensures(crate::ssh::Auth::next, (&*final(auth),), after),
        call_ensures(crate::ssh::Auth::accepted, (&*final(auth),), inside),
        !(before is Nothing),
    ensures
        inside <==> t is Accepted,
        t is Accepted ==> after is Nothing,
        !(t is Accepted) ==> {
            let files = old(auth)@.files;
            &&& before matches crate::ssh::NextIdentity::Agent(i) ==> {
                &&& i + 1 < old(auth)@.agent ==> after == crate::ssh::NextIdentity::Agent(
                    (i + 1) as usize,
                )
                &&& i + 1 == old(auth)@.agent && files.len() > 0 && old(auth)@.files_tried == 0
                    ==> (after matches crate::ssh::NextIdentity::File(p) && p@ == files[0])
            }
            &&& before is File ==> {
                let k = old(auth)@.files_tried + 1;
                &&& k < files.len() ==> (after matches crate::ssh::NextIdentity::File(p) && p@
                    == files[k as int])
                &&& k == files.len() ==> after is Nothing
            }
        },
        final(auth)@.files == old(auth)@.files,
        final(auth)@.agent == old(auth)@.agent,
{
}

/// When nothing is left, nothing that is told changes anything.
pub proof fn law_nothing_left(
    auth: &mut crate::ssh::Auth,
    t: crate::ssh::Tried,
    before: crate::ssh::NextIdentity,
    after: crate::ssh::NextIdentity,
    was_inside: bool,
    inside: bool,
)
    requires
        old(auth)@.wf(),
        call_ensures(crate::ssh::Auth::next, (&*old(auth),), before),
        call_ensures(crate::ssh::Auth::accepted, (&*old(auth),), was_inside),
        call_ensures(crate::ssh::Auth::record, (auth, t), ()),
        call_ensures(crate::ssh::Auth::next, (&*final(auth),), after),
        call_ensures(crate::ssh::Auth::accepted, (&*final(auth),), inside),
        before is Nothing,
    ensures
        after is Nothing,
        inside == was_inside,
        final(auth)@.attempts == old(auth)@.attempts,
{
}

/// When nothing worked, every file that was encrypted or refused is told, in order, and
/// a missing one is not.
pub proof fn law_attempts_are_told(
    auth: &mut crate::ssh::Auth,
    t: crate::ssh::Tried,
    next: crate::ssh::NextIdentity,
    user: &str,
    hostname: &str,
    e: crate::Error,
    first: crate::ssh::Auth,
    n: usize,
    files: &Vec<String>,
    nothing: crate::Error,
)
    requires
        old(auth)@.wf(),
        call_ensures(crate::ssh::Auth::next, (&*old(auth),), next),
        call_ensures(crate::ssh::Auth::record, (auth, t), ()),
        call_ensures(crate::ssh::Auth::failure, (&*final(auth), user, hostname), e),
        call_ensures(crate::ssh::Auth::new, (n, files), first),
        call_ensures(crate::ssh::Auth::failure, (&first, user, hostname), nothing),
    ensures
        ({
            let head = "no auth method succeeded for "@ + user@ + "@"@ + hostname@
                + "; agent tried, keys: "@;
            let so_far = old(auth)@.attempts;
            let told = match next {
                crate::ssh::NextIdentity::File(p) => match t {
                    crate::ssh::Tried::Encrypted => so_far.push(
                        p@ + ": encrypted, add it to ssh-agent"@,
                    ),
                    crate::ssh::Tried::Rejected => so_far.push(p@ + ": rejected"@),
                    _ => so_far,
                },
                _ => so_far,
            };
            &&& final(auth)@.attempts == told
            &&& told.len() > 0 ==> (e matches crate::Error::Auth(w) && w@ == head
                + crate::text::joined(told, "; "@))
            &&& nothing matches crate::Error::Auth(w) && w@ == head + "none usable"@
        }),
{
}

} // verus!
