//! Streaming of questions: a question goes to the client as a series of word fragments, the
//! first marked `is_first_word` and the last `is_last_word`; the client joins them back.

use vstd::prelude::*;

use crate::chars::{chars_of, is_whitespace, is_ws, slice_chars, string_of};
use crate::protocol::{Server, ServerMsg, ServerPacket};

verus! {

/// The first position at or after `i` that holds no whitespace (or the end).
pub open spec fn ws_end(s: Seq<char>, i: int) -> int
    decreases s.len() - i,
{
    if i < 0 || i >= s.len() {
        i
    } else if is_ws(s[i]) {
        ws_end(s, i + 1)
    } else {
        i
    }
}

/// The first position at or after `i` that holds whitespace (or the end).
pub open spec fn word_end(s: Seq<char>, i: int) -> int
    decreases s.len() - i,
{
    if i < 0 || i >= s.len() {
        i
    } else if !is_ws(s[i]) {
        word_end(s, i + 1)
    } else {
        i
    }
}

/// Where the fragment that starts at `i` ends: after the whitespace before a word, the word, and
/// the whitespace after it.
pub open spec fn piece_end(s: Seq<char>, i: int) -> int {
    ws_end(s, word_end(s, ws_end(s, i)))
}

/// The fragments of `s` from position `i` on.
pub open spec fn pieces(s: Seq<char>, i: int) -> Seq<Seq<char>>
    decreases s.len() - i,
{
    let e = piece_end(s, i);
    if i < 0 || i >= s.len() || e <= i || e > s.len() {
        Seq::empty()
    } else {
        seq![s.subrange(i, e)] + pieces(s, e)
    }
}

/// The concatenation of `ps`.
pub open spec fn concat(ps: Seq<Seq<char>>) -> Seq<char>
    decreases ps.len(),
{
    if ps.len() == 0 {
        Seq::empty()
    } else {
        ps[0] + concat(ps.drop_first())
    }
}

pub open spec fn fragment_text(m: ServerMsg) -> Seq<char> {
    match m {
        ServerMsg::Question { question, .. } => question,
    }
}

/// The series of fragments that carries `q`. An empty question is one fragment, both first and
/// last.
pub open spec fn fragments_spec(q: Seq<char>) -> Seq<ServerMsg> {
    let ps = pieces(q, 0);
    if ps.len() == 0 {
        seq![ServerMsg::Question { question: q, is_first_word: true, is_last_word: true }]
    } else {
        Seq::new(
            ps.len(),
            |k: int|
                ServerMsg::Question {
                    question: ps[k],
                    is_first_word: k == 0,
                    is_last_word: k == ps.len() - 1,
                },
        )
    }
}

pub open spec fn is_first(m: ServerMsg) -> bool {
    match m {
        ServerMsg::Question { is_first_word, .. } => is_first_word,
    }
}

pub open spec fn is_last(m: ServerMsg) -> bool {
    match m {
        ServerMsg::Question { is_last_word, .. } => is_last_word,
    }
}

/// `ms` is one complete series: at least one fragment, only the first marked first and only the
/// last marked last.
pub open spec fn is_series(ms: Seq<ServerMsg>) -> bool {
    &&& ms.len() >= 1
    &&& forall|k: int| 0 <= k < ms.len() ==> (is_first(#[trigger] ms[k]) <==> k == 0)
    &&& forall|k: int| 0 <= k < ms.len() ==> (is_last(#[trigger] ms[k]) <==> k == ms.len() - 1)
}

/// The text that a series of fragments carries: their concatenation.
pub open spec fn join_series(ms: Seq<ServerMsg>) -> Seq<char> {
    concat(ms.map_values(|m: ServerMsg| fragment_text(m)))
}

proof fn lemma_ws_end(s: Seq<char>, i: int)
    requires
        0 <= i <= s.len(),
    ensures
        i <= ws_end(s, i) <= s.len(),
        forall|j: int| i <= j < ws_end(s, i) ==> is_ws(#[trigger] s[j]),
        ws_end(s, i) < s.len() ==> !is_ws(s[ws_end(s, i)]),
    decreases s.len() - i,
{
    if i < s.len() && is_ws(s[i]) {
        lemma_ws_end(s, i + 1);
    }
}

proof fn lemma_word_end(s: Seq<char>, i: int)
    requires
        0 <= i <= s.len(),
    ensures
        i <= word_end(s, i) <= s.len(),
        forall|j: int| i <= j < word_end(s, i) ==> !is_ws(#[trigger] s[j]),
        word_end(s, i) < s.len() ==> is_ws(s[word_end(s, i)]),
    decreases s.len() - i,
{
    if i < s.len() && !is_ws(s[i]) {
        lemma_word_end(s, i + 1);
    }
}

proof fn lemma_piece_end(s: Seq<char>, i: int)
    requires
        0 <= i < s.len(),
    ensures
        i < piece_end(s, i) <= s.len(),
{
    lemma_ws_end(s, i);
    let a = ws_end(s, i);
    lemma_word_end(s, a);
    let b = word_end(s, a);
    lemma_ws_end(s, b);
    if a < s.len() {
        assert(b > a);
    }
}

/// Unfolds [`pieces`] at a position inside the text.
proof fn lemma_pieces_step(s: Seq<char>, i: int)
    requires
        0 <= i < s.len(),
    ensures
        pieces(s, i) == seq![s.subrange(i, piece_end(s, i))] + pieces(s, piece_end(s, i)),
        i < piece_end(s, i) <= s.len(),
{
    lemma_piece_end(s, i);
}

proof fn lemma_pieces_concat(s: Seq<char>, i: int)
    requires
        0 <= i <= s.len(),
    ensures
        concat(pieces(s, i)) == s.subrange(i, s.len() as int),
        pieces(s, i).len() == 0 <==> i == s.len(),
    decreases s.len() - i,
{
    if i == s.len() {
        assert(s.subrange(i, s.len() as int) =~= Seq::<char>::empty());
    } else {
        lemma_pieces_step(s, i);
        let e = piece_end(s, i);
        lemma_pieces_concat(s, e);
        let ps = pieces(s, i);
        assert(ps.drop_first() =~= pieces(s, e));
        assert(s.subrange(i, s.len() as int) =~= s.subrange(i, e) + s.subrange(e, s.len() as int));
    }
}

/// The fragments of a question form one complete series, and joining them gives back the
/// question.
pub proof fn lemma_join_fragments(q: Seq<char>)
    ensures
        join_series(fragments_spec(q)) == q,
        is_series(fragments_spec(q)),
{
    lemma_pieces_concat(q, 0);
    assert(q.subrange(0, q.len() as int) =~= q);
    let ps = pieces(q, 0);
    let ms = fragments_spec(q);
    if ps.len() == 0 {
        let ts = ms.map_values(|m: ServerMsg| fragment_text(m));
        assert(ts.drop_first() =~= Seq::<Seq<char>>::empty());
        assert(concat(ts) == ts[0] + concat(ts.drop_first()));
        assert(q =~= ts[0] + Seq::<char>::empty());
    } else {
        assert(ms.map_values(|m: ServerMsg| fragment_text(m)) =~= ps);
    }
}

/// The end of the whitespace run that starts at `i`.
fn skip_ws(v: &Vec<char>, i: usize) -> (r: usize)
    requires
        i <= v@.len(),
    ensures
        r == ws_end(v@, i as int),
{
    let mut j: usize = i;
    while j < v.len() && is_whitespace(v[j])
        invariant
            i <= j <= v@.len(),
            ws_end(v@, i as int) == ws_end(v@, j as int),
        decreases v@.len() - j,
    {
        j = j + 1;
    }
    j
}

/// The end of the word that starts at `i`.
fn skip_word(v: &Vec<char>, i: usize) -> (r: usize)
    requires
        i <= v@.len(),
    ensures
        r == word_end(v@, i as int),
{
    let mut j: usize = i;
    while j < v.len() && !is_whitespace(v[j])
        invariant
            i <= j <= v@.len(),
            word_end(v@, i as int) == word_end(v@, j as int),
        decreases v@.len() - j,
    {
        j = j + 1;
    }
    j
}

/// The series of packets that carries `question`, one fragment per word, each with the
/// whitespace around it, so that joining them gives back the question.
pub fn fragments(question: &str) -> (r: Vec<ServerPacket>)
    ensures
        r@.map_values(|p: ServerPacket| p.data@) == fragments_spec(question@),
{
    let v = chars_of(question);
    let n = v.len();
    let ghost s = v@;
    let ghost ps = pieces(s, 0);
    let mut out: Vec<ServerPacket> = Vec::new();
    if n == 0 {
        proof {
            lemma_pieces_concat(s, 0);
        }
        out.push(
            ServerPacket::new(
                Server::Question {
                    question: string_of(&v),
                    is_first_word: true,
                    is_last_word: true,
                },
            ),
        );
        proof {
            assert(out@.map_values(|p: ServerPacket| p.data@) =~= fragments_spec(question@));
        }
        return out;
    }
    proof {
        lemma_pieces_concat(s, 0);
    }
    let mut i: usize = 0;
    while i < n
        invariant
            s == v@,
            s == question@,
            n == s.len(),
            n > 0,
            ps == pieces(s, 0),
            ps.len() > 0,
            i <= n,
            0 <= out@.len() <= ps.len(),
            pieces(s, i as int) == ps.subrange(out@.len() as int, ps.len() as int),
            forall|k: int|
                0 <= k < out@.len() ==> (#[trigger] out@[k]).data@ == (ServerMsg::Question {
                    question: ps[k],
                    is_first_word: k == 0,
                    is_last_word: k == ps.len() - 1,
                }),
        decreases n - i,
    {
        proof {
            lemma_pieces_step(s, i as int);
            lemma_pieces_concat(s, i as int);
            lemma_pieces_concat(s, piece_end(s, i as int));
        }
        let a = skip_ws(&v, i);
        proof {
            lemma_ws_end(s, i as int);
        }
        let b = skip_word(&v, a);
        proof {
            lemma_word_end(s, a as int);
        }
        let e = skip_ws(&v, b);
        let piece = slice_chars(&v, i, e);
        let k = out.len();
        proof {
            let rest = ps.subrange(k as int, ps.len() as int);
            assert(rest.len() > 0);
            assert(rest[0] == ps[k as int]);
            assert(rest.drop_first() =~= ps.subrange(k + 1, ps.len() as int));
            assert(pieces(s, e as int) == rest.drop_first());
            assert(ps[k as int] == s.subrange(i as int, e as int));
            if e == n {
                assert(ps.subrange(k + 1, ps.len() as int).len() == 0);
            } else {
                assert(ps.subrange(k + 1, ps.len() as int).len() > 0);
            }
        }
        out.push(
            ServerPacket::new(
                Server::Question {
                    question: string_of(&piece),
                    is_first_word: k == 0,
                    is_last_word: e == n,
                },
            ),
        );
        i = e;
    }
    proof {
        assert(out@.len() == ps.len()) by {
            lemma_pieces_concat(s, n as int);
        }
        assert(out@.map_values(|p: ServerPacket| p.data@) =~= fragments_spec(question@));
    }
    out
}

} // verus!
