use crate::annotations::{annots_into, annots_ok, annots_tokens, Annot, Token};
use vstd::prelude::*;

verus! {

/// A semantic token as the editor receives it: its line relative to the
/// previous token's, its start (relative to the previous token's start when
/// on the same line), its length and its type.
pub struct SemToken {
    pub delta_line: u32,
    pub delta_start: u32,
    pub length: u32,
    pub token_type: u32,
}

/// A semantic token as plain values.
pub open spec fn sem_view(t: SemToken) -> (u32, u32, u32, u32) {
    (t.delta_line, t.delta_start, t.length, t.token_type)
}

/// The length a token is sent with: its width on its line, or 999 for a
/// token that spans lines or ends before it starts.
pub open spec fn token_length(t: Token) -> u32 {
    let r = t.0;
    if r.start.line == r.end.line && r.end.col >= r.start.col {
        (r.end.col - r.start.col) as u32
    } else {
        999
    }
}

/// One step of the encoding from the previous token's start `curr`: a
/// token that does not start after `curr` is dropped; any other is sent
/// relative to `curr`, and its start becomes the next `curr`.
pub open spec fn encode_step(curr: (u32, u32), t: Token) -> ((u32, u32), Option<(u32, u32, u32, u32)>) {
    let s = t.0.start;
    if s.line < curr.0 || (s.line == curr.0 && s.col <= curr.1) {
        (curr, None)
    } else {
        let dl = (s.line - curr.0) as u32;
        let ds = if dl == 0 {
            (s.col - curr.1) as u32
        } else {
            s.col
        };
        ((s.line, s.col), Some((dl, ds, token_length(t), t.1)))
    }
}

/// The tokens `ts`, encoded from the start `curr`.
pub open spec fn encode_from(curr: (u32, u32), ts: Seq<Token>) -> Seq<(u32, u32, u32, u32)>
    decreases ts.len(),
{
    if ts.len() == 0 {
        Seq::empty()
    } else {
        let (next, sent) = encode_step(curr, ts[0]);
        (match sent {
            Some(x) => seq![x],
            None => Seq::empty(),
        }) + encode_from(next, ts.drop_first())
    }
}

/// The tokens, encoded as the editor receives them (see `encode_from`),
/// starting from the document's start.
pub fn encode_tokens(ts: &Vec<Token>) -> (r: Vec<SemToken>)
    ensures
        r@.map_values(|t: SemToken| sem_view(t)) == encode_from((0, 0), ts@),
{
    let mut out: Vec<SemToken> = Vec::new();
    let mut line: u32 = 0;
    let mut col: u32 = 0;
    let mut i: usize = 0;
    assert(ts@.skip(0) =~= ts@);
    while i < ts.len()
        invariant
            i <= ts@.len(),
            out@.map_values(|t: SemToken| sem_view(t)) + encode_from((line, col), ts@.skip(i as int))
                == encode_from((0, 0), ts@),
        decreases ts@.len() - i,
    {
        let ghost before = out@;
        let t = ts[i];
        assert(ts@.skip(i as int)[0] == t);
        assert(ts@.skip(i as int).drop_first() =~= ts@.skip(i + 1));
        let s = t.0.start;
        if !(s.line < line || (s.line == line && s.col <= col)) {
            let dl = s.line - line;
            let ds = if dl == 0 {
                s.col - col
            } else {
                s.col
            };
            let e = t.0.end;
            let length: u32 = if s.line == e.line && e.col >= s.col {
                e.col - s.col
            } else {
                999
            };
            out.push(SemToken { delta_line: dl, delta_start: ds, length, token_type: t.1 });
            let ghost x = (dl, ds, length, t.1);
            assert(out@.map_values(|t: SemToken| sem_view(t)) =~= before.map_values(
                |t: SemToken| sem_view(t),
            ).push(x));
            assert(seq![x] + encode_from((s.line, s.col), ts@.skip(i + 1)) == encode_from(
                (line, col),
                ts@.skip(i as int),
            ));
            assert(before.map_values(|t: SemToken| sem_view(t)).push(x) + encode_from(
                (s.line, s.col),
                ts@.skip(i + 1),
            ) =~= before.map_values(|t: SemToken| sem_view(t)) + (seq![x] + encode_from(
                (s.line, s.col),
                ts@.skip(i + 1),
            )));
            line = s.line;
            col = s.col;
        } else {
            assert(encode_from((line, col), ts@.skip(i as int)) == Seq::<(u32, u32, u32, u32)>::empty()
                + encode_from((line, col), ts@.skip(i + 1)));
            assert(Seq::<(u32, u32, u32, u32)>::empty() + encode_from((line, col), ts@.skip(i + 1))
                =~= encode_from((line, col), ts@.skip(i + 1)));
        }
        i = i + 1;
    }
    assert(ts@.skip(i as int) =~= Seq::<Token>::empty());
    assert(out@.map_values(|t: SemToken| sem_view(t)) + Seq::<(u32, u32, u32, u32)>::empty()
        =~= out@.map_values(|t: SemToken| sem_view(t)));
    out
}

/// The semantic tokens of a document with the annotations `annots`, as the
/// editor receives them: the tokens of each annotation in order, encoded.
pub fn document_semantic_tokens(annots: &Vec<Annot>) -> (r: Vec<SemToken>)
    requires
        annots_ok(annots@),
    ensures
        r@.map_values(|t: SemToken| sem_view(t)) == encode_from((0, 0), annots_tokens(annots@)),
{
    let mut ts: Vec<Token> = Vec::new();
    annots_into(annots, &mut ts);
    assert(ts@ =~= annots_tokens(annots@));
    encode_tokens(&ts)
}

/// The start positions, lengths and types that the encoded tokens `e`
/// stand for,
/// read from the position `prev`: a token on the same line starts its
/// offset after the previous start, one on a later line at its own column.
pub open spec fn decode(prev: (int, int), e: Seq<(u32, u32, u32, u32)>) -> Seq<(int, int, u32, u32)>
    decreases e.len(),
{
    if e.len() == 0 {
        Seq::empty()
    } else {
        let p: (int, int) = if e[0].0 == 0 {
            (prev.0, prev.1 + e[0].1)
        } else {
            (prev.0 + e[0].0, e[0].1 as int)
        };
        seq![(p.0, p.1, e[0].2, e[0].3)] + decode(p, e.drop_first())
    }
}

/// The start positions, lengths and types of the tokens that reach the
/// editor, from the position `prev`: each token that starts after the last
/// one sent, with its width on its line (999 where it spans lines or ends
/// before it starts).
pub open spec fn sent_starts(prev: (int, int), ts: Seq<Token>) -> Seq<(int, int, u32, u32)>
    decreases ts.len(),
{
    if ts.len() == 0 {
        Seq::empty()
    } else {
        let s = ts[0].0.start;
        let e = ts[0].0.end;
        let width: u32 = if s.line == e.line && e.col >= s.col {
            (e.col - s.col) as u32
        } else {
            999
        };
        if s.line > prev.0 || (s.line == prev.0 && s.col > prev.1) {
            seq![(s.line as int, s.col as int, width, ts[0].1)] + sent_starts(
                (s.line as int, s.col as int),
                ts.drop_first(),
            )
        } else {
            sent_starts(prev, ts.drop_first())
        }
    }
}

/// The editor, decoding the tokens as the protocol says, finds each token
/// that is sent at its own start, with its own length and type: the
/// relative positions stand for the absolute ones.
pub proof fn lemma_encoding_decodes(curr: (u32, u32), ts: Seq<Token>)
    ensures
        decode((curr.0 as int, curr.1 as int), encode_from(curr, ts)) == sent_starts(
            (curr.0 as int, curr.1 as int),
            ts,
        ),
    decreases ts.len(),
{
    if ts.len() > 0 {
        let (next, sent) = encode_step(curr, ts[0]);
        lemma_encoding_decodes(next, ts.drop_first());
        let rest = encode_from(next, ts.drop_first());
        match sent {
            Some(x) => {
                let e = seq![x] + rest;
                assert(e[0] == x);
                assert(e.drop_first() =~= rest);
            },
            None => {
                assert(Seq::<(u32, u32, u32, u32)>::empty() + rest =~= rest);
            },
        }
    }
}

} // verus!
