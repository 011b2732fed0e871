//! The canonical text form of a path.
//!
//! A path is rendered by writing its fragments root first, joined with a
//! single `/`; decoding splits on `/`, parses every segment eagerly and
//! short-circuits on the first bad segment.  Because valid fragment tokens
//! never contain the separator, encoding is injective and decoding inverts
//! it exactly.
use crate::fragment::spec_parse;
use crate::fragment::spec_render;
use crate::fragment::frag_valid;
use crate::fragment::lemma_render_parse;
use crate::fragment::no_slash;
use crate::fragment::FragErrView;
use crate::fragment::FragView;
use crate::fragment::PathFragment;
use crate::fragment::ValidFragmentError;
use crate::path::frag_seq_view;
use crate::path::Path;
use vstd::prelude::*;

verus! {

/// Split `t` on `/` with `cur` the partial segment read so far.
pub open spec fn split_rec(t: Seq<char>, cur: Seq<char>) -> Seq<Seq<char>>
    decreases t.len(),
{
    if t.len() == 0 {
        seq![cur]
    } else if t[0] == '/' {
        seq![cur] + split_rec(t.drop_first(), seq![])
    } else {
        split_rec(t.drop_first(), cur.push(t[0]))
    }
}

/// The segments of `t`, split on the separator.  The empty text yields one
/// empty segment, never no segments.
pub open spec fn spec_split(t: Seq<char>) -> Seq<Seq<char>> {
    split_rec(t, seq![])
}

/// The segments joined with the separator.
pub open spec fn spec_join(segs: Seq<Seq<char>>) -> Seq<char>
    decreases segs.len(),
{
    if segs.len() == 0 {
        seq![]
    } else if segs.len() == 1 {
        segs[0]
    } else {
        segs[0] + seq!['/'] + spec_join(segs.drop_first())
    }
}

/// Parse the segments left to right, short-circuiting on the first error.
pub open spec fn parse_segs(segs: Seq<Seq<char>>) -> Result<Seq<FragView>, FragErrView>
    decreases segs.len(),
{
    if segs.len() == 0 {
        Ok(seq![])
    } else {
        match spec_parse(segs[0]) {
            Err(e) => Err(e),
            Ok(f) => match parse_segs(segs.drop_first()) {
                Err(e) => Err(e),
                Ok(fs) => Ok(seq![f] + fs),
            },
        }
    }
}

/// Already-parsed root-first fragments, followed by the outcome of the rest.
pub open spec fn combine(acc: Seq<FragView>, r: Result<Seq<FragView>, FragErrView>) -> Result<
    Seq<FragView>,
    FragErrView,
> {
    match r {
        Ok(fs) => Ok(acc + fs),
        Err(e) => Err(e),
    }
}

/// The canonical text of an innermost-first path: fragments rendered root
/// first and joined with the separator.
pub open spec fn spec_encode(p: Seq<FragView>) -> Seq<char> {
    spec_join(p.reverse().map_values(|f: FragView| spec_render(f)))
}

/// What decoding a text yields: the innermost-first path of its parsed
/// segments, or the first segment error.
pub open spec fn spec_decode(t: Seq<char>) -> Result<Seq<FragView>, FragErrView> {
    match parse_segs(spec_split(t)) {
        Ok(fs) => Ok(fs.reverse()),
        Err(e) => Err(e),
    }
}

/// Every fragment of the path satisfies the validity restriction.
pub open spec fn path_valid(p: Seq<FragView>) -> bool {
    forall|i: int| 0 <= i < p.len() ==> frag_valid(#[trigger] p[i])
}

/// Splitting consumes a separator-free prefix into the current segment.
proof fn lemma_split_rec_append(seg: Seq<char>, rest: Seq<char>, cur: Seq<char>)
    requires
        no_slash(seg),
    ensures
        split_rec(seg + rest, cur) == split_rec(rest, cur + seg),
    decreases seg.len(),
{
    if seg.len() == 0 {
        assert(seg + rest =~= rest);
        assert(cur + seg =~= cur);
    } else {
        let whole = seg + rest;
        assert(whole[0] == seg[0]);
        assert(seg[0] != '/');
        assert(whole.drop_first() =~= seg.drop_first() + rest);
        assert(no_slash(seg.drop_first()));
        lemma_split_rec_append(seg.drop_first(), rest, cur.push(seg[0]));
        assert(cur.push(seg[0]) + seg.drop_first() =~= cur + seg);
    }
}

/// Joining then splitting separator-free segments is the identity.
proof fn lemma_split_join(segs: Seq<Seq<char>>)
    requires
        segs.len() >= 1,
        forall|i: int| 0 <= i < segs.len() ==> no_slash(#[trigger] segs[i]),
    ensures
        spec_split(spec_join(segs)) == segs,
    decreases segs.len(),
{
    if segs.len() == 1 {
        let seg = segs[0];
        assert(spec_join(segs) == seg);
        lemma_split_rec_append(seg, seq![], seq![]);
        assert(seg + Seq::<char>::empty() =~= seg);
        assert(Seq::<char>::empty() + seg =~= seg);
        assert(split_rec(Seq::<char>::empty(), seg) == seq![seg]);
        assert(seq![seg] =~= segs);
    } else {
        let seg = segs[0];
        let rest = segs.drop_first();
        let tail = seq!['/'] + spec_join(rest);
        assert(spec_join(segs) =~= seg + tail);
        lemma_split_rec_append(seg, tail, seq![]);
        assert(Seq::<char>::empty() + seg =~= seg);
        assert(tail[0] == '/');
        assert(tail.drop_first() =~= spec_join(rest));
        assert(split_rec(tail, seg) == seq![seg] + spec_split(spec_join(rest)));
        assert(forall|i: int| 0 <= i < rest.len() ==> no_slash(#[trigger] rest[i]));
        lemma_split_join(rest);
        assert(seq![seg] + rest =~= segs);
    }
}

/// Parsing the rendered tokens of valid fragments yields the fragments back.
proof fn lemma_parse_segs_render(frags: Seq<FragView>)
    requires
        forall|i: int| 0 <= i < frags.len() ==> frag_valid(#[trigger] frags[i]),
    ensures
        parse_segs(frags.map_values(|f: FragView| spec_render(f))) == Ok::<
            Seq<FragView>,
            FragErrView,
        >(frags),
    decreases frags.len(),
{
    let segs = frags.map_values(|f: FragView| spec_render(f));
    if frags.len() == 0 {
        assert(segs.len() == 0);
        assert(Ok::<Seq<FragView>, FragErrView>(seq![]) == Ok::<Seq<FragView>, FragErrView>(
            frags,
        )) by {
            assert(frags =~= Seq::<FragView>::empty());
        }
    } else {
        assert(segs[0] == spec_render(frags[0]));
        lemma_render_parse(frags[0]);
        assert(segs.drop_first() =~= frags.drop_first().map_values(
            |f: FragView| spec_render(f),
        ));
        lemma_parse_segs_render(frags.drop_first());
        assert(seq![frags[0]] + frags.drop_first() =~= frags);
    }
}

/// The round-trip law: decoding the canonical text of any non-empty path of
/// valid fragments yields exactly that path.
pub proof fn lemma_round_trip(p: Seq<FragView>)
    requires
        p.len() > 0,
        path_valid(p),
    ensures
        spec_decode(spec_encode(p)) == Ok::<Seq<FragView>, FragErrView>(p),
{
    let rf = p.reverse();
    let segs = rf.map_values(|f: FragView| spec_render(f));
    assert(forall|i: int| 0 <= i < rf.len() ==> frag_valid(#[trigger] rf[i]));
    assert(forall|i: int| 0 <= i < segs.len() ==> no_slash(#[trigger] segs[i])) by {
        assert forall|i: int| 0 <= i < segs.len() implies no_slash(#[trigger] segs[i]) by {
            lemma_render_parse(rf[i]);
        }
    }
    lemma_split_join(segs);
    lemma_parse_segs_render(rf);
    assert(rf.reverse() =~= p);
}

/// Decoding the empty text fails with a bad-name error for its single empty
/// segment; it never yields an empty path or an empty `Named` fragment.
pub proof fn lemma_empty_decode()
    ensures
        spec_decode(Seq::<char>::empty()) == Err::<Seq<FragView>, FragErrView>(
            FragErrView::BadName(Seq::<char>::empty()),
        ),
{
    crate::fragment::lemma_tag_facts();
    let empty = Seq::<char>::empty();
    assert(spec_split(empty) == seq![empty]);
    assert(spec_parse(empty) == Err::<FragView, FragErrView>(FragErrView::BadName(empty)));
}

/// Joining one more segment appends one separator and the segment.
proof fn lemma_join_push(segs: Seq<Seq<char>>, x: Seq<char>)
    requires
        segs.len() >= 1,
    ensures
        spec_join(segs.push(x)) == spec_join(segs) + seq!['/'] + x,
    decreases segs.len(),
{
    let pushed = segs.push(x);
    if segs.len() == 1 {
        assert(pushed.len() == 2);
        assert(pushed.drop_first() =~= seq![x]);
        assert(spec_join(pushed.drop_first()) == x);
        assert(pushed[0] == segs[0]);
    } else {
        assert(pushed.drop_first() =~= segs.drop_first().push(x));
        lemma_join_push(segs.drop_first(), x);
        assert(pushed[0] == segs[0]);
        assert(segs[0] + seq!['/'] + (spec_join(segs.drop_first()) + seq!['/'] + x) =~= (segs[0]
            + seq!['/'] + spec_join(segs.drop_first())) + seq!['/'] + x);
    }
}

impl Path {
    /// Render this path as its canonical text: fragments root first, joined
    /// with `/`.
    pub fn encode(&self) -> (r: String)
        ensures
            r@ == spec_encode(self@),
    {
        let frags = self.iterate();
        let n = frags.len();
        let ghost segs = self@.reverse().map_values(|f: FragView| spec_render(f));
        proof {
            crate::path::lemma_path_nonempty(self);
        }
        let mut out = String::new();
        let mut k: usize = 0;
        while k < n
            invariant
                k <= n,
                n == frags@.len(),
                n == self@.len(),
                frag_seq_view(frags@) == self@,
                segs == self@.reverse().map_values(|f: FragView| spec_render(f)),
                k == 0 ==> out@ == Seq::<char>::empty(),
                k >= 1 ==> out@ == spec_join(segs.take(k as int)),
            decreases n - k,
        {
            let ghost prev = out@;
            if k > 0 {
                out.append("/");
            }
            let piece = frags[n - 1 - k].render();
            out.append(piece.as_str());
            proof {
                reveal_strlit("/");
                assert(segs[k as int] == spec_render(self@.reverse()[k as int]));
                assert(self@.reverse()[k as int] == self@[n - 1 - k]);
                assert(self@[n - 1 - k] == frags@[n - 1 - k]@);
                assert(piece@ == segs[k as int]);
                if k == 0 {
                    assert(out@ =~= segs[0]);
                    assert(segs.take(1) =~= seq![segs[0]]);
                    assert(spec_join(segs.take(1)) == segs[0]);
                } else {
                    assert(out@ =~= spec_join(segs.take(k as int)) + seq!['/'] + segs[k as int]);
                    lemma_join_push(segs.take(k as int), segs[k as int]);
                    assert(segs.take(k as int).push(segs[k as int]) =~= segs.take(k as int + 1));
                }
            }
            k += 1;
        }
        proof {
            assert(segs.take(n as int) =~= segs);
        }
        out
    }

    /// Decode a canonical text: split on `/`, parse every segment eagerly
    /// root first, short-circuit on the first bad segment, and build the
    /// path.  The empty text fails on its single empty segment.
    pub fn decode(s: &str) -> (r: Result<Path, ValidFragmentError>)
        ensures
            r matches Ok(p) ==> spec_decode(s@) == Ok::<Seq<FragView>, FragErrView>(p@),
            r matches Err(e) ==> spec_decode(s@) == Err::<Seq<FragView>, FragErrView>(e@),
    {
        let n = s.unicode_len();
        let mut acc: Vec<PathFragment> = Vec::new();
        let mut start: usize = 0;
        let mut i: usize = 0;
        proof {
            assert(s@.subrange(0, n as int) =~= s@);
            let r0 = parse_segs(spec_split(s@));
            if r0 is Ok {
                assert(Seq::<FragView>::empty() + r0->Ok_0 =~= r0->Ok_0);
            }
        }
        while i < n
            invariant
                start <= i <= n,
                n == s@.len(),
                forall|j: int| start <= j < i ==> s@[j] != '/',
                combine(
                    frag_seq_view(acc@),
                    parse_segs(spec_split(s@.subrange(start as int, n as int))),
                ) == parse_segs(spec_split(s@)),
            decreases n - i,
        {
            if s.get_char(i) == '/' {
                let seg_text = s.substring_char(start, i);
                proof {
                    let rem = s@.subrange(start as int, n as int);
                    let seg = s@.subrange(start as int, i as int);
                    let rest = s@.subrange(i as int + 1, n as int);
                    assert(no_slash(seg));
                    assert(rem =~= seg + (seq!['/'] + rest));
                    lemma_split_rec_append(seg, seq!['/'] + rest, seq![]);
                    assert(Seq::<char>::empty() + seg =~= seg);
                    assert((seq!['/'] + rest)[0] == '/');
                    assert((seq!['/'] + rest).drop_first() =~= rest);
                    assert(spec_split(rem) == seq![seg] + spec_split(rest));
                    assert((seq![seg] + spec_split(rest))[0] == seg);
                    assert((seq![seg] + spec_split(rest)).drop_first() =~= spec_split(rest));
                }
                match PathFragment::try_from_str(seg_text) {
                    Err(e) => {
                        return Err(e);
                    },
                    Ok(f) => {
                        let ghost before = frag_seq_view(acc@);
                        acc.push(f);
                        proof {
                            let rest = s@.subrange(i as int + 1, n as int);
                            assert(frag_seq_view(acc@) =~= before + seq![f@]);
                            let inner = parse_segs(spec_split(rest));
                            if inner is Ok {
                                assert((before + seq![f@]) + inner->Ok_0 =~= before + (seq![f@]
                                    + inner->Ok_0));
                            }
                        }
                    },
                }
                start = i + 1;
            }
            i += 1;
        }
        let seg_text = s.substring_char(start, n);
        proof {
            let rem = s@.subrange(start as int, n as int);
            assert(no_slash(rem));
            lemma_split_rec_append(rem, seq![], seq![]);
            assert(rem + Seq::<char>::empty() =~= rem);
            assert(Seq::<char>::empty() + rem =~= rem);
            assert(spec_split(rem) == seq![rem]);
            assert(seq![rem].drop_first() =~= Seq::<Seq<char>>::empty());
            assert(parse_segs(seq![rem].drop_first()) == Ok::<Seq<FragView>, FragErrView>(seq![]));
        }
        match PathFragment::try_from_str(seg_text) {
            Err(e) => {
                return Err(e);
            },
            Ok(f) => {
                let ghost before = frag_seq_view(acc@);
                acc.push(f);
                proof {
                    assert(frag_seq_view(acc@) =~= before + seq![f@]);
                    assert(seq![f@] + Seq::<FragView>::empty() =~= seq![f@]);
                    assert(parse_segs(spec_split(s@)) == Ok::<Seq<FragView>, FragErrView>(
                        frag_seq_view(acc@),
                    ));
                }
            },
        }
        match Path::try_from_vec(acc) {
            Ok(p) => Ok(p),
            Err(m) => Err(ValidFragmentError::InvalidReversePath(m)),
        }
    }

    /// Decode an owned canonical text.
    pub fn decode_owned(s: String) -> (r: Result<Path, ValidFragmentError>)
        ensures
            r matches Ok(p) ==> spec_decode(s@) == Ok::<Seq<FragView>, FragErrView>(p@),
            r matches Err(e) ==> spec_decode(s@) == Err::<Seq<FragView>, FragErrView>(e@),
    {
        Path::decode(s.as_str())
    }
}

} // verus!
