//! How a POSIX shell reads quoted words, and the quoting that survives it.

use vstd::prelude::*;

verus! {

/// Where a shell stands while it reads a command line.
pub struct Reader {
    /// Inside single quotes.
    pub quoted: bool,
    /// The word being read; `None` between words.
    pub word: Option<Seq<char>>,
    /// The words read so far.
    pub done: Seq<Seq<char>>,
}

/// A character that means nothing special to a shell inside a word.
pub open spec fn bare(c: char) -> bool {
    ||| 'A' <= c <= 'Z'
    ||| 'a' <= c <= 'z'
    ||| '0' <= c <= '9'
    ||| c == '_'
    ||| c == '@'
    ||| c == '%'
    ||| c == '+'
    ||| c == '='
    ||| c == ':'
    ||| c == ','
    ||| c == '.'
    ||| c == '/'
    ||| c == '-'
}

/// Every character is a bare one.
pub open spec fn all_bare(s: Seq<char>) -> bool {
    forall|i: int| 0 <= i < s.len() ==> bare(#[trigger] s[i])
}

impl Reader {
    /// The word being read, with one more character.
    pub open spec fn grown(self, c: char) -> Option<Seq<char>> {
        match self.word {
            Some(w) => Some(w.push(c)),
            None => Some(seq![c]),
        }
    }

    /// The word being read, started if need be.
    pub open spec fn started(self) -> Option<Seq<char>> {
        match self.word {
            Some(w) => Some(w),
            None => Some(Seq::empty()),
        }
    }

    /// The words read, the current one included.
    pub open spec fn words(self) -> Seq<Seq<char>> {
        match self.word {
            Some(w) => self.done.push(w),
            None => self.done,
        }
    }
}

/// A shell before a command line.
pub open spec fn fresh() -> Reader {
    Reader { quoted: false, word: None, done: Seq::empty() }
}

/// The words a shell reads from the rest of a command line: single quotes keep
/// everything up to the next one, a backslash outside quotes keeps the character
/// behind it, and unquoted spaces separate words. `None` when a quote stays open
/// or a character with another meaning stands outside quotes.
pub open spec fn read_words(r: Reader, t: Seq<char>) -> Option<Seq<Seq<char>>>
    decreases t.len(),
{
    if t.len() == 0 {
        if r.quoted {
            None
        } else {
            Some(r.words())
        }
    } else if r.quoted {
        if t[0] == '\'' {
            read_words(Reader { quoted: false, ..r }, t.skip(1))
        } else {
            read_words(Reader { word: r.grown(t[0]), ..r }, t.skip(1))
        }
    } else if t[0] == '\'' {
        read_words(Reader { quoted: true, word: r.started(), ..r }, t.skip(1))
    } else if t[0] == '\\' {
        if t.len() >= 2 && t[1] != '\n' {
            read_words(Reader { word: r.grown(t[1]), ..r }, t.skip(2))
        } else {
            None
        }
    } else if t[0] == ' ' {
        read_words(Reader { quoted: false, word: None, done: r.words() }, t.skip(1))
    } else if bare(t[0]) {
        read_words(Reader { word: r.grown(t[0]), ..r }, t.skip(1))
    } else {
        None
    }
}

/// The words of a command line.
pub open spec fn words_of(t: Seq<char>) -> Option<Seq<Seq<char>>> {
    read_words(fresh(), t)
}

/// What a character becomes inside single quotes.
pub open spec fn sq_piece(c: char) -> Seq<char> {
    if c == '\'' {
        seq!['\'', '\\', '\'', '\'']
    } else {
        seq![c]
    }
}

/// A text escaped for single quotes: every quote closes the quoting, adds an
/// escaped quote and opens it again.
pub open spec fn sq_escaped(s: Seq<char>) -> Seq<char>
    decreases s.len(),
{
    if s.len() == 0 {
        Seq::empty()
    } else {
        sq_escaped(s.drop_last()) + sq_piece(s.last())
    }
}

/// A text in single quotes.
pub open spec fn single_quoted(s: Seq<char>) -> Seq<char> {
    "'"@ + sq_escaped(s) + "'"@
}

/// Escaping works piece by piece.
pub proof fn lemma_sq_escaped_concat(a: Seq<char>, b: Seq<char>)
    ensures
        sq_escaped(a + b) == sq_escaped(a) + sq_escaped(b),
    decreases b.len(),
{
    if b.len() == 0 {
        assert(a + b =~= a);
        assert(sq_escaped(a) + sq_escaped(b) =~= sq_escaped(a));
    } else {
        assert((a + b).drop_last() =~= a + b.drop_last());
        assert((a + b).last() == b.last());
        lemma_sq_escaped_concat(a, b.drop_last());
        assert(sq_escaped(a + b) =~= sq_escaped(a) + sq_escaped(b));
    }
}

/// Inside quotes, an escaped text and the closing quote read as the text.
proof fn lemma_quoted_body(r: Reader, w: Seq<char>, s: Seq<char>, rest: Seq<char>)
    requires
        r.quoted,
        r.word == Some(w),
    ensures
        read_words(r, sq_escaped(s) + seq!['\''] + rest) == read_words(
            Reader { quoted: false, word: Some(w + s), done: r.done },
            rest,
        ),
    decreases s.len(),
{
    let t = sq_escaped(s) + seq!['\''] + rest;
    if s.len() == 0 {
        assert(t =~= seq!['\''] + rest);
        assert(t.skip(1) =~= rest);
        assert(w + s =~= w);
    } else {
        let c = s[0];
        let tail = s.skip(1);
        assert(s =~= seq![c] + tail);
        lemma_sq_escaped_concat(seq![c], tail);
        assert(sq_escaped(seq![c]) =~= sq_piece(c)) by {
            assert(seq![c].drop_last() =~= Seq::<char>::empty());
            assert(sq_escaped(Seq::<char>::empty()) =~= Seq::<char>::empty());
        }
        let t2 = sq_escaped(tail) + seq!['\''] + rest;
        let r2 = Reader { quoted: true, word: Some(w.push(c)), done: r.done };
        assert(t =~= sq_piece(c) + t2);
        assert(w.push(c) + tail =~= w + s);
        lemma_quoted_body(r2, w.push(c), tail, rest);
        if c == '\'' {
            let r_a = Reader { quoted: false, ..r };
            assert(read_words(r, t) == read_words(r_a, t.skip(1)));
            assert(t.skip(1)[0] == '\\' && t.skip(1)[1] == '\'');
            let r_b = Reader { word: Some(w.push(c)), ..r_a };
            assert(t.skip(1).skip(2) =~= t.skip(3));
            assert(read_words(r_a, t.skip(1)) == read_words(r_b, t.skip(3)));
            assert(t.skip(3)[0] == '\'');
            assert(t.skip(3).skip(1) =~= t2);
            assert(read_words(r_b, t.skip(3)) == read_words(r2, t2));
        } else {
            assert(t[0] == c);
            assert(t.skip(1) =~= t2);
        }
    }
}

/// A text in single quotes reads as one word, whatever it holds.
pub proof fn lemma_single_quoted(done: Seq<Seq<char>>, s: Seq<char>, rest: Seq<char>)
    ensures
        read_words(Reader { quoted: false, word: None, done }, single_quoted(s) + rest)
            == read_words(Reader { quoted: false, word: Some(s), done }, rest),
{
    reveal_strlit("'");
    let r = Reader { quoted: false, word: None, done };
    let t = single_quoted(s) + rest;
    assert("'"@ =~= seq!['\'']);
    assert(t[0] == '\'');
    let body = sq_escaped(s) + seq!['\''] + rest;
    assert(t.skip(1) =~= body);
    let r2 = Reader { quoted: true, word: Some(Seq::<char>::empty()), done };
    assert(read_words(r, t) == read_words(r2, body));
    lemma_quoted_body(r2, Seq::empty(), s, rest);
    assert(Seq::<char>::empty() + s =~= s);
}

/// Bare characters read as themselves.
pub proof fn lemma_bare(done: Seq<Seq<char>>, w: Seq<char>, s: Seq<char>, rest: Seq<char>)
    requires
        all_bare(s),
    ensures
        read_words(Reader { quoted: false, word: Some(w), done }, s + rest) == read_words(
            Reader { quoted: false, word: Some(w + s), done },
            rest,
        ),
    decreases s.len(),
{
    if s.len() == 0 {
        assert(s + rest =~= rest);
        assert(w + s =~= w);
    } else {
        assert(bare(s[0]));
        assert((s + rest)[0] == s[0]);
        assert((s + rest).skip(1) =~= s.skip(1) + rest);
        assert forall|i: int| 0 <= i < s.skip(1).len() implies bare(
            #[trigger] s.skip(1)[i],
        ) by {
            assert(s.skip(1)[i] == s[i + 1]);
        }
        lemma_bare(done, w.push(s[0]), s.skip(1), rest);
        assert(w.push(s[0]) + s.skip(1) =~= w + s);
    }
}

/// A written form that a shell reads as the word `s`, wherever it stands.
pub open spec fn reads_as(q: Seq<char>, s: Seq<char>) -> bool {
    forall|done: Seq<Seq<char>>, rest: Seq<char>|
        #[trigger] read_words(Reader { quoted: false, word: None, done }, q + rest)
            == read_words(Reader { quoted: false, word: Some(s), done }, rest)
}

/// A bare word reads as itself.
pub proof fn lemma_bare_word(s: Seq<char>)
    requires
        s.len() > 0,
        all_bare(s),
    ensures
        reads_as(s, s),
{
    assert forall|done: Seq<Seq<char>>, rest: Seq<char>|
        #[trigger] read_words(Reader { quoted: false, word: None, done }, s + rest)
            == read_words(Reader { quoted: false, word: Some(s), done }, rest) by {
        let tail = s.skip(1);
        assert(bare(s[0]));
        assert((s + rest)[0] == s[0]);
        assert((s + rest).skip(1) =~= tail + rest);
        assert forall|i: int| 0 <= i < tail.len() implies bare(#[trigger] tail[i]) by {
            assert(tail[i] == s[i + 1]);
        }
        lemma_bare(done, seq![s[0]], tail, rest);
        assert(seq![s[0]] + tail =~= s);
    }
}

/// A single-quoted text reads as the text.
pub proof fn lemma_quoted_word(s: Seq<char>)
    ensures
        reads_as(single_quoted(s), s),
{
    assert forall|done: Seq<Seq<char>>, rest: Seq<char>|
        #[trigger] read_words(
            Reader { quoted: false, word: None, done },
            single_quoted(s) + rest,
        ) == read_words(Reader { quoted: false, word: Some(s), done }, rest) by {
        lemma_single_quoted(done, s, rest);
    }
}

/// A word and the space behind it.
pub proof fn lemma_word_then_space(
    q: Seq<char>,
    s: Seq<char>,
    done: Seq<Seq<char>>,
    rest: Seq<char>,
)
    requires
        reads_as(q, s),
    ensures
        read_words(Reader { quoted: false, word: None, done }, q + (seq![' '] + rest))
            == read_words(Reader { quoted: false, word: None, done: done.push(s) }, rest),
{
    let t = seq![' '] + rest;
    assert(t[0] == ' ');
    assert(t.skip(1) =~= rest);
    assert(read_words(Reader { quoted: false, word: None, done }, q + t) == read_words(
        Reader { quoted: false, word: Some(s), done },
        t,
    ));
}

/// Every form reads as the word at its place.
pub open spec fn all_read_as(qs: Seq<Seq<char>>, ws: Seq<Seq<char>>) -> bool {
    &&& qs.len() == ws.len()
    &&& forall|i: int| 0 <= i < qs.len() ==> reads_as(#[trigger] qs[i], ws[i])
}

proof fn lemma_joined_then(
    done: Seq<Seq<char>>,
    qs: Seq<Seq<char>>,
    ws: Seq<Seq<char>>,
    rest: Seq<char>,
)
    requires
        all_read_as(qs, ws),
        qs.len() > 0,
    ensures
        read_words(
            Reader { quoted: false, word: None, done },
            crate::text::joined(qs, seq![' ']) + rest,
        ) == read_words(
            Reader { quoted: false, word: Some(ws.last()), done: done + ws.drop_last() },
            rest,
        ),
    decreases qs.len(),
{
    let n = qs.len() as int;
    assert(reads_as(qs[n - 1], ws[n - 1]));
    if n == 1 {
        assert(done + ws.drop_last() =~= done);
    } else {
        let a = crate::text::joined(qs.drop_last(), seq![' ']);
        let q = qs.last();
        let more = seq![' '] + (q + rest);
        assert(crate::text::joined(qs, seq![' ']) + rest =~= a + more);
        assert forall|i: int| 0 <= i < n - 1 implies reads_as(
            #[trigger] qs.drop_last()[i],
            ws.drop_last()[i],
        ) by {
            assert(reads_as(qs[i], ws[i]));
        }
        lemma_joined_then(done, qs.drop_last(), ws.drop_last(), more);
        let w = ws.drop_last().last();
        let d = done + ws.drop_last().drop_last();
        assert(d.push(w) =~= done + ws.drop_last());
        assert(more[0] == ' ');
        assert(more.skip(1) =~= q + rest);
        assert(read_words(Reader { quoted: false, word: Some(w), done: d }, more) == read_words(
            Reader { quoted: false, word: None, done: done + ws.drop_last() },
            q + rest,
        ));
    }
}

/// Forms joined by spaces read as their words, in order.
pub proof fn lemma_joined_words(done: Seq<Seq<char>>, qs: Seq<Seq<char>>, ws: Seq<Seq<char>>)
    requires
        all_read_as(qs, ws),
    ensures
        read_words(
            Reader { quoted: false, word: None, done },
            crate::text::joined(qs, " "@),
        ) == Some(done + ws),
{
    reveal_strlit(" ");
    assert(" "@ =~= seq![' ']);
    let t = crate::text::joined(qs, " "@);
    if qs.len() == 0 {
        assert(done + ws =~= done);
    } else {
        lemma_joined_then(done, qs, ws, Seq::empty());
        assert(t + Seq::<char>::empty() =~= t);
        assert((done + ws.drop_last()).push(ws.last()) =~= done + ws);
    }
}

/// A shell reads a single-quoted text back as exactly that text, in one word.
pub proof fn law_single_quotes_keep_the_text(s: Seq<char>)
    ensures
        words_of(single_quoted(s)) == Some(seq![s]),
{
    lemma_single_quoted(Seq::empty(), s, Seq::empty());
    assert(single_quoted(s) + Seq::<char>::empty() =~= single_quoted(s));
    assert(Seq::<Seq<char>>::empty().push(s) =~= seq![s]);
}

} // verus!
