//! Fragments: the tokens out of which tree-node identity paths are built,
//! together with their canonical text form.
//!
//! A fragment is one of ten fixed system tags (rendered with a leading `@`),
//! a branch ordinal (rendered `#` followed by decimal digits), or a validated
//! name (rendered verbatim).  The character restriction on names keeps the
//! three token classes disjoint in text form.
use std::sync::Arc;
use vstd::prelude::*;

verus! {

/// The mathematical model of a fragment: names are modelled by their
/// character sequences.
pub enum FragView {
    Cloned,
    ThenFn,
    FinishOrFn,
    FinishFn,
    CondCompIf,
    Guard,
    Next,
    Suggested,
    DefaultEffect,
    Effects,
    Branch(u64),
    Named(Seq<char>),
}

/// The mathematical model of a fragment-format error.
pub enum FragErrView {
    BranchParseError,
    BadName(Seq<char>),
    InvalidReversePath(Seq<char>),
}

/// A character allowed in a `Named` fragment: ASCII alphabetic or underscore.
pub open spec fn is_name_char(c: char) -> bool {
    (65 <= c as u32 && c as u32 <= 90) || (97 <= c as u32 && c as u32 <= 122) || c as u32 == 95
}

pub open spec fn is_name_seq(s: Seq<char>) -> bool {
    forall|i: int| 0 <= i < s.len() ==> is_name_char(#[trigger] s[i])
}

/// An ASCII decimal digit.
pub open spec fn is_digit(c: char) -> bool {
    48 <= c as u32 && c as u32 <= 57
}

pub open spec fn is_digit_seq(s: Seq<char>) -> bool {
    forall|i: int| 0 <= i < s.len() ==> is_digit(#[trigger] s[i])
}

pub open spec fn digit_val(c: char) -> nat {
    (c as u32 - 48) as nat
}

/// The number denoted by a sequence of decimal digits, most significant first.
pub open spec fn dec_value(s: Seq<char>) -> nat
    decreases s.len(),
{
    if s.len() == 0 {
        0
    } else {
        dec_value(s.drop_last()) * 10 + digit_val(s.last())
    }
}

pub open spec fn digit_char(d: nat) -> char {
    if d == 0 { '0' }
    else if d == 1 { '1' }
    else if d == 2 { '2' }
    else if d == 3 { '3' }
    else if d == 4 { '4' }
    else if d == 5 { '5' }
    else if d == 6 { '6' }
    else if d == 7 { '7' }
    else if d == 8 { '8' }
    else { '9' }
}

/// The canonical decimal rendering of a number, without leading zeros.
pub open spec fn spec_digits(n: nat) -> Seq<char>
    decreases n,
{
    if n < 10 {
        seq![digit_char(n)]
    } else {
        spec_digits(n / 10).push(digit_char(n % 10))
    }
}

/// The canonical text of a fragment.
pub open spec fn spec_render(f: FragView) -> Seq<char> {
    match f {
        FragView::Cloned => "@cloned"@,
        FragView::ThenFn => "@then_fn"@,
        FragView::FinishOrFn => "@finish_or_fn"@,
        FragView::FinishFn => "@finish_fn"@,
        FragView::CondCompIf => "@cond_comp_if"@,
        FragView::Guard => "@guard"@,
        FragView::Next => "@next"@,
        FragView::Suggested => "@suggested"@,
        FragView::DefaultEffect => "@default_effect"@,
        FragView::Effects => "@effects"@,
        FragView::Branch(n) => "#"@ + spec_digits(n as nat),
        FragView::Named(s) => s,
    }
}

/// The fixed tag denoted by a token, if any.
pub open spec fn tag_of(s: Seq<char>) -> Option<FragView> {
    if s == "@cloned"@ { Some(FragView::Cloned) }
    else if s == "@then_fn"@ { Some(FragView::ThenFn) }
    else if s == "@finish_or_fn"@ { Some(FragView::FinishOrFn) }
    else if s == "@finish_fn"@ { Some(FragView::FinishFn) }
    else if s == "@cond_comp_if"@ { Some(FragView::CondCompIf) }
    else if s == "@guard"@ { Some(FragView::Guard) }
    else if s == "@next"@ { Some(FragView::Next) }
    else if s == "@suggested"@ { Some(FragView::Suggested) }
    else if s == "@default_effect"@ { Some(FragView::DefaultEffect) }
    else if s == "@effects"@ { Some(FragView::Effects) }
    else { None }
}

/// What parsing a single token yields: fixed tags first, then branch tokens,
/// then validated names; anything else is a bad name.  The empty token is a
/// bad name, never an empty `Named`.
pub open spec fn spec_parse(s: Seq<char>) -> Result<FragView, FragErrView> {
    if tag_of(s) is Some {
        Ok(tag_of(s)->0)
    } else if s.len() > 0 && s[0] == '#' {
        let digits = s.subrange(1, s.len() as int);
        if digits.len() > 0 && is_digit_seq(digits) && dec_value(digits) <= u64::MAX {
            Ok(FragView::Branch(dec_value(digits) as u64))
        } else {
            Err(FragErrView::BranchParseError)
        }
    } else if s.len() > 0 && is_name_seq(s) {
        Ok(FragView::Named(s))
    } else {
        Err(FragErrView::BadName(s))
    }
}

/// A fragment whose text form parses back to itself: `Named` must satisfy the
/// name character restriction, everything else is unconditionally valid.
pub open spec fn frag_valid(f: FragView) -> bool {
    match f {
        FragView::Named(s) => s.len() > 0 && is_name_seq(s),
        _ => true,
    }
}

pub open spec fn no_slash(s: Seq<char>) -> bool {
    forall|i: int| 0 <= i < s.len() ==> #[trigger] s[i] != '/'
}

/// One step of tree descent: a fixed system tag, the ordinal of a compiled
/// branch alternative, or a validated name.  Names are held behind `Arc` so
/// that identical names reached from many tree nodes share one allocation.
#[derive(Debug, Hash, PartialEq, Eq)]
pub enum PathFragment {
    Cloned,
    ThenFn,
    FinishOrFn,
    FinishFn,
    CondCompIf,
    Guard,
    Next,
    Suggested,
    DefaultEffect,
    Effects,
    Branch(u64),
    Named(Arc<String>),
}

impl View for PathFragment {
    type V = FragView;

    open spec fn view(&self) -> FragView {
        match self {
            PathFragment::Cloned => FragView::Cloned,
            PathFragment::ThenFn => FragView::ThenFn,
            PathFragment::FinishOrFn => FragView::FinishOrFn,
            PathFragment::FinishFn => FragView::FinishFn,
            PathFragment::CondCompIf => FragView::CondCompIf,
            PathFragment::Guard => FragView::Guard,
            PathFragment::Next => FragView::Next,
            PathFragment::Suggested => FragView::Suggested,
            PathFragment::DefaultEffect => FragView::DefaultEffect,
            PathFragment::Effects => FragView::Effects,
            PathFragment::Branch(n) => FragView::Branch(*n),
            PathFragment::Named(s) => FragView::Named(s@),
        }
    }
}

impl Clone for PathFragment {
    fn clone(&self) -> (res: Self)
        ensures
            res == *self,
    {
        match self {
            PathFragment::Cloned => PathFragment::Cloned,
            PathFragment::ThenFn => PathFragment::ThenFn,
            PathFragment::FinishOrFn => PathFragment::FinishOrFn,
            PathFragment::FinishFn => PathFragment::FinishFn,
            PathFragment::CondCompIf => PathFragment::CondCompIf,
            PathFragment::Guard => PathFragment::Guard,
            PathFragment::Next => PathFragment::Next,
            PathFragment::Suggested => PathFragment::Suggested,
            PathFragment::DefaultEffect => PathFragment::DefaultEffect,
            PathFragment::Effects => PathFragment::Effects,
            PathFragment::Branch(n) => PathFragment::Branch(*n),
            PathFragment::Named(s) => PathFragment::Named(s.clone()),
        }
    }
}

/// An error in the text form of a fragment or of a whole path.
#[derive(Debug, Hash, PartialEq, Eq)]
pub enum ValidFragmentError {
    BranchParseError,
    BadName(Arc<String>),
    InvalidReversePath(&'static str),
}

impl View for ValidFragmentError {
    type V = FragErrView;

    open spec fn view(&self) -> FragErrView {
        match self {
            ValidFragmentError::BranchParseError => FragErrView::BranchParseError,
            ValidFragmentError::BadName(s) => FragErrView::BadName(s@),
            ValidFragmentError::InvalidReversePath(m) => FragErrView::InvalidReversePath(m@),
        }
    }
}

impl Clone for ValidFragmentError {
    fn clone(&self) -> (res: Self)
        ensures
            res == *self,
    {
        match self {
            ValidFragmentError::BranchParseError => ValidFragmentError::BranchParseError,
            ValidFragmentError::BadName(s) => ValidFragmentError::BadName(s.clone()),
            ValidFragmentError::InvalidReversePath(m) => ValidFragmentError::InvalidReversePath(m),
        }
    }
}

/// The stable diagnostic text of a fragment-format error.
pub open spec fn spec_err_text(e: FragErrView) -> Seq<char> {
    match e {
        FragErrView::BranchParseError => "BranchParseError"@,
        FragErrView::BadName(s) => "BadName("@ + s + ")"@,
        FragErrView::InvalidReversePath(m) => "InvalidReversePath("@ + m + ")"@,
    }
}

impl ValidFragmentError {
    /// Render this error as its stable, single-line diagnostic text.
    pub fn message(&self) -> (r: String)
        ensures
            r@ == spec_err_text(self@),
    {
        match self {
            ValidFragmentError::BranchParseError => "BranchParseError".to_owned(),
            ValidFragmentError::BadName(s) => {
                let mut out = "BadName(".to_owned();
                out.append((&**s).as_str());
                out.append(")");
                proof {
                    assert(out@ =~= "BadName("@ + s@ + ")"@);
                }
                out
            },
            ValidFragmentError::InvalidReversePath(m) => {
                let mut out = "InvalidReversePath(".to_owned();
                out.append(*m);
                out.append(")");
                proof {
                    assert(out@ =~= "InvalidReversePath("@ + m@ + ")"@);
                }
                out
            },
        }
    }
}

/// The view of a parse result, for stating parsing contracts.
pub open spec fn parse_result_view(r: Result<PathFragment, ValidFragmentError>) -> Result<
    FragView,
    FragErrView,
> {
    match r {
        Ok(f) => Ok(f@),
        Err(e) => Err(e@),
    }
}

/// Compare two string slices by value.
fn str_eq(a: &str, b: &str) -> (r: bool)
    ensures
        r == (a@ == b@),
{
    let an = a.unicode_len();
    let bn = b.unicode_len();
    if an != bn {
        return false;
    }
    let mut i: usize = 0;
    while i < an
        invariant
            i <= an,
            an == a@.len(),
            bn == b@.len(),
            an == bn,
            forall|j: int| 0 <= j < i ==> a@[j] == b@[j],
        decreases an - i,
    {
        if a.get_char(i) != b.get_char(i) {
            return false;
        }
        i += 1;
    }
    proof {
        assert(a@ =~= b@);
    }
    true
}

/// The single-character text of a decimal digit.
fn digit_str(d: u64) -> (r: &'static str)
    requires
        d < 10,
    ensures
        r@ == seq![digit_char(d as nat)],
{
    proof {
        reveal_strlit("0");
        reveal_strlit("1");
        reveal_strlit("2");
        reveal_strlit("3");
        reveal_strlit("4");
        reveal_strlit("5");
        reveal_strlit("6");
        reveal_strlit("7");
        reveal_strlit("8");
        reveal_strlit("9");
    }
    if d == 0 { proof { assert("0"@ =~= seq![digit_char(0)]); } "0" }
    else if d == 1 { proof { assert("1"@ =~= seq![digit_char(1)]); } "1" }
    else if d == 2 { proof { assert("2"@ =~= seq![digit_char(2)]); } "2" }
    else if d == 3 { proof { assert("3"@ =~= seq![digit_char(3)]); } "3" }
    else if d == 4 { proof { assert("4"@ =~= seq![digit_char(4)]); } "4" }
    else if d == 5 { proof { assert("5"@ =~= seq![digit_char(5)]); } "5" }
    else if d == 6 { proof { assert("6"@ =~= seq![digit_char(6)]); } "6" }
    else if d == 7 { proof { assert("7"@ =~= seq![digit_char(7)]); } "7" }
    else if d == 8 { proof { assert("8"@ =~= seq![digit_char(8)]); } "8" }
    else { proof { assert("9"@ =~= seq![digit_char(9)]); } "9" }
}

/// Append the canonical decimal rendering of `n`.
fn push_decimal(out: &mut String, n: u64)
    ensures
        final(out)@ == old(out)@ + spec_digits(n as nat),
    decreases n,
{
    if n < 10 {
        out.append(digit_str(n));
    } else {
        push_decimal(out, n / 10);
        out.append(digit_str(n % 10));
        proof {
            assert(old(out)@ + spec_digits((n / 10) as nat) + seq![digit_char((n % 10) as nat)]
                =~= old(out)@ + spec_digits(n as nat));
        }
    }
}

impl PathFragment {
    /// The canonical text of this fragment: `@`-prefixed fixed tags, `#` plus
    /// decimal digits for a branch ordinal, names verbatim.
    pub fn render(&self) -> (r: String)
        ensures
            r@ == spec_render(self@),
    {
        match self {
            PathFragment::Cloned => "@cloned".to_owned(),
            PathFragment::ThenFn => "@then_fn".to_owned(),
            PathFragment::FinishOrFn => "@finish_or_fn".to_owned(),
            PathFragment::FinishFn => "@finish_fn".to_owned(),
            PathFragment::CondCompIf => "@cond_comp_if".to_owned(),
            PathFragment::Guard => "@guard".to_owned(),
            PathFragment::Next => "@next".to_owned(),
            PathFragment::Suggested => "@suggested".to_owned(),
            PathFragment::DefaultEffect => "@default_effect".to_owned(),
            PathFragment::Effects => "@effects".to_owned(),
            PathFragment::Branch(n) => {
                let mut out = String::new();
                out.append("#");
                push_decimal(&mut out, *n);
                proof {
                    assert(out@ =~= "#"@ + spec_digits(*n as nat));
                }
                out
            },
            PathFragment::Named(s) => (&**s).clone(),
        }
    }

    /// Parse one token: the fixed-tag table first, then `#`-prefixed decimal
    /// branch ordinals, then validated names; anything else is a bad name,
    /// the empty token included.
    pub fn try_from_str(s: &str) -> (r: Result<PathFragment, ValidFragmentError>)
        ensures
            parse_result_view(r) == spec_parse(s@),
    {
        if str_eq(s, "@cloned") { return Ok(PathFragment::Cloned); }
        if str_eq(s, "@then_fn") { return Ok(PathFragment::ThenFn); }
        if str_eq(s, "@finish_or_fn") { return Ok(PathFragment::FinishOrFn); }
        if str_eq(s, "@finish_fn") { return Ok(PathFragment::FinishFn); }
        if str_eq(s, "@cond_comp_if") { return Ok(PathFragment::CondCompIf); }
        if str_eq(s, "@guard") { return Ok(PathFragment::Guard); }
        if str_eq(s, "@next") { return Ok(PathFragment::Next); }
        if str_eq(s, "@suggested") { return Ok(PathFragment::Suggested); }
        if str_eq(s, "@default_effect") { return Ok(PathFragment::DefaultEffect); }
        if str_eq(s, "@effects") { return Ok(PathFragment::Effects); }
        let n = s.unicode_len();
        if n > 0 && s.get_char(0) == '#' {
            if n == 1 {
                return Err(ValidFragmentError::BranchParseError);
            }
            let ghost digits = s@.subrange(1, s@.len() as int);
            let mut val: u64 = 0;
            let mut i: usize = 1;
            while i < n
                invariant
                    1 <= i <= n,
                    n == s@.len(),
                    s@[0] == '#',
                    tag_of(s@) is None,
                    digits == s@.subrange(1, s@.len() as int),
                    is_digit_seq(s@.subrange(1, i as int)),
                    val as nat == dec_value(s@.subrange(1, i as int)),
                decreases n - i,
            {
                let c = s.get_char(i);
                let u = c as u32;
                if u < 48 || u > 57 {
                    proof {
                        assert(!is_digit(digits[i - 1]));
                    }
                    return Err(ValidFragmentError::BranchParseError);
                }
                let d: u64 = (u - 48) as u64;
                proof {
                    let pre = s@.subrange(1, i as int);
                    let pre1 = s@.subrange(1, i as int + 1);
                    assert(pre1.drop_last() =~= pre);
                    assert(pre1.last() == s@[i as int]);
                }
                let next_val = match val.checked_mul(10) {
                    Some(v10) => v10.checked_add(d),
                    None => None,
                };
                match next_val {
                    Some(v) => {
                        val = v;
                    },
                    None => {
                        proof {
                            let pre1 = s@.subrange(1, i as int + 1);
                            assert(dec_value(pre1) > u64::MAX);
                            if is_digit_seq(digits) {
                                assert(pre1 =~= digits.take(i as int));
                                lemma_dec_value_prefix(digits, i as int);
                            }
                        }
                        return Err(ValidFragmentError::BranchParseError);
                    },
                }
                i += 1;
            }
            proof {
                assert(digits =~= s@.subrange(1, i as int));
            }
            return Ok(PathFragment::Branch(val));
        }
        if n == 0 {
            return Err(ValidFragmentError::BadName(Arc::new(s.to_owned())));
        }
        let mut i: usize = 0;
        while i < n
            invariant
                i <= n,
                n == s@.len(),
                n > 0,
                tag_of(s@) is None,
                !(s@[0] == '#'),
                forall|j: int| 0 <= j < i ==> is_name_char(#[trigger] s@[j]),
            decreases n - i,
        {
            let c = s.get_char(i);
            let u = c as u32;
            if !((65 <= u && u <= 90) || (97 <= u && u <= 122) || u == 95) {
                return Err(ValidFragmentError::BadName(Arc::new(s.to_owned())));
            }
            i += 1;
        }
        Ok(PathFragment::Named(Arc::new(s.to_owned())))
    }

    /// Parse a shared token, keeping the given allocation for a `Named` result.
    pub fn try_from_arc(s: Arc<String>) -> (r: Result<PathFragment, ValidFragmentError>)
        ensures
            parse_result_view(r) == spec_parse(s@),
    {
        let parsed = Self::try_from_str((&*s).as_str());
        match parsed {
            Ok(PathFragment::Named(_)) => Ok(PathFragment::Named(s)),
            other => other,
        }
    }
}

/// The value of a digit sequence is monotone in its prefixes.
proof fn lemma_dec_value_prefix(t: Seq<char>, k: int)
    requires
        is_digit_seq(t),
        0 <= k <= t.len(),
    ensures
        dec_value(t.take(k)) <= dec_value(t),
    decreases t.len(),
{
    if k == t.len() {
        assert(t.take(k) =~= t);
    } else {
        let u = t.drop_last();
        assert(is_digit_seq(u));
        lemma_dec_value_prefix(u, k);
        assert(t.take(k) =~= u.take(k));
        assert(dec_value(t) == dec_value(u) * 10 + digit_val(t.last()));
        assert(dec_value(u) * 10 >= dec_value(u));
    }
}

/// The canonical decimal rendering of `n` is non-empty, consists of digits,
/// contains no separator, and denotes `n`.
pub proof fn lemma_digits_props(n: nat)
    ensures
        spec_digits(n).len() > 0,
        is_digit_seq(spec_digits(n)),
        dec_value(spec_digits(n)) == n,
        no_slash(spec_digits(n)),
    decreases n,
{
    if n < 10 {
        assert(is_digit(digit_char(n)));
        assert(dec_value(seq![digit_char(n)].drop_last()) == 0);
        assert(seq![digit_char(n)].last() == digit_char(n));
        assert(digit_val(digit_char(n)) == n);
    } else {
        lemma_digits_props(n / 10);
        let prev = spec_digits(n / 10);
        let whole = prev.push(digit_char(n % 10));
        assert(whole.drop_last() =~= prev);
        assert(whole.last() == digit_char(n % 10));
        assert(digit_val(digit_char(n % 10)) == n % 10);
        assert(dec_value(whole) == dec_value(prev) * 10 + n % 10);
        assert(dec_value(prev) * 10 + n % 10 == n);
    }
}

/// The lengths, leading characters and separator-freedom of the ten fixed
/// tag tokens, enough to tell any two of them apart.
pub proof fn lemma_tag_facts()
    ensures
        "@cloned"@.len() == 7 && "@cloned"@[0] == '@' && "@cloned"@[1] == 'c',
        "@then_fn"@.len() == 8 && "@then_fn"@[0] == '@' && "@then_fn"@[1] == 't',
        "@finish_or_fn"@.len() == 13 && "@finish_or_fn"@[0] == '@' && "@finish_or_fn"@[1] == 'f',
        "@finish_fn"@.len() == 10 && "@finish_fn"@[0] == '@' && "@finish_fn"@[1] == 'f',
        "@cond_comp_if"@.len() == 13 && "@cond_comp_if"@[0] == '@' && "@cond_comp_if"@[1] == 'c',
        "@guard"@.len() == 6 && "@guard"@[0] == '@' && "@guard"@[1] == 'g',
        "@next"@.len() == 5 && "@next"@[0] == '@' && "@next"@[1] == 'n',
        "@suggested"@.len() == 10 && "@suggested"@[0] == '@' && "@suggested"@[1] == 's',
        "@default_effect"@.len() == 15 && "@default_effect"@[0] == '@' && "@default_effect"@[1]
            == 'd',
        "@effects"@.len() == 8 && "@effects"@[0] == '@' && "@effects"@[1] == 'e',
        no_slash("@cloned"@),
        no_slash("@then_fn"@),
        no_slash("@finish_or_fn"@),
        no_slash("@finish_fn"@),
        no_slash("@cond_comp_if"@),
        no_slash("@guard"@),
        no_slash("@next"@),
        no_slash("@suggested"@),
        no_slash("@default_effect"@),
        no_slash("@effects"@),
{
    reveal_strlit("@cloned");
    reveal_strlit("@then_fn");
    reveal_strlit("@finish_or_fn");
    reveal_strlit("@finish_fn");
    reveal_strlit("@cond_comp_if");
    reveal_strlit("@guard");
    reveal_strlit("@next");
    reveal_strlit("@suggested");
    reveal_strlit("@default_effect");
    reveal_strlit("@effects");
}

/// Rendering a valid fragment yields a non-empty token without the path
/// separator, and parsing that token yields the fragment back.
pub proof fn lemma_render_parse(f: FragView)
    requires
        frag_valid(f),
    ensures
        spec_render(f).len() > 0,
        no_slash(spec_render(f)),
        spec_parse(spec_render(f)) == Ok::<FragView, FragErrView>(f),
{
    lemma_tag_facts();
    reveal_strlit("#");
    match f {
        FragView::Branch(n) => {
            lemma_digits_props(n as nat);
            let r = spec_render(f);
            assert(r[0] == '#');
            assert(r.len() > 0);
            assert(tag_of(r) is None);
            let digits = r.subrange(1, r.len() as int);
            assert(digits =~= spec_digits(n as nat));
            assert(no_slash(r));
        },
        FragView::Named(s) => {
            let r = spec_render(f);
            assert(r == s);
            assert(is_name_char(s[0]));
            assert(!is_name_char('@'));
            assert(!is_name_char('#'));
            assert(!is_name_char('/'));
            assert(tag_of(r) is None);
            assert(s[0] != '#');
            assert(no_slash(r));
        },
        _ => {
            let r = spec_render(f);
            assert(r.len() > 0);
            assert(tag_of(r) == Some(f));
            assert(no_slash(r));
        },
    }
}

/// Parsing only ever yields valid fragments: a parsed `Named` token always
/// satisfies the name character restriction.
pub proof fn lemma_parse_valid(s: Seq<char>)
    ensures
        spec_parse(s) matches Ok(f) ==> frag_valid(f),
{
}

/// A fragment drawn from the closed vocabulary of fixed system tags.
pub open spec fn is_fixed_tag(f: FragView) -> bool {
    !(f is Branch) && !(f is Named)
}

/// Fixed-tag fixed point: parsing the token of any fixed tag yields that tag
/// back, and the tag re-encodes to the identical token.
pub proof fn lemma_fixed_tag_fixed_point(f: FragView)
    requires
        is_fixed_tag(f),
    ensures
        spec_parse(spec_render(f)) == Ok::<FragView, FragErrView>(f),
{
    lemma_render_parse(f);
}

/// Branch parsing: for every ordinal, the token of `#` followed by the
/// ordinal's decimal digits parses to exactly that branch.
pub proof fn lemma_branch_parsing(n: u64)
    ensures
        spec_parse("#"@ + spec_digits(n as nat)) == Ok::<FragView, FragErrView>(
            FragView::Branch(n),
        ),
{
    lemma_render_parse(FragView::Branch(n));
}

/// Name rejection: a token that is no fixed tag, does not open with the
/// branch marker, and holds any character that is neither ASCII alphabetic
/// nor underscore fails with a bad-name error carrying the token itself.
pub proof fn lemma_name_rejection(s: Seq<char>)
    requires
        tag_of(s) is None,
        !(s.len() > 0 && s[0] == '#'),
        exists|i: int| 0 <= i < s.len() && !is_name_char(#[trigger] s[i]),
    ensures
        spec_parse(s) == Err::<FragView, FragErrView>(FragErrView::BadName(s)),
{
}

} // verus!
