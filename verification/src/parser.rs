//! The token parser: raw command-line tokens are validated against the
//! schema, producing a match-set or a descriptive failure.
//!
//! A token is free when it does not begin with `-` or is `-` alone; `--`
//! ends option parsing. A token beginning with `--` carries a long name,
//! optionally followed by `=` and a value. Any other token beginning with
//! `-` is a cluster of short names; within it, the first value-taking
//! name consumes the rest of the token as its value, or the next token
//! when nothing follows it. A value-taking name with no value left, an
//! unknown name, a value handed to a flag, and a repeated option are the
//! failures.

use vstd::prelude::*;

use crate::opts::{
    display_name, find_name, find_opt, lemma_find_name, name_of, opt_has_name, Matches, NameV,
    OptDef, OptDefV,
};
use crate::opts::lemma_find_name_first;

verus! {

/// A parse failure, named as it is reported.
pub enum ParseError {
    /// A value-taking option with no value supplied.
    ArgumentMissing(String),
    /// A name not in the schema.
    UnrecognizedOption(String),
    /// An option given more than once.
    OptionDuplicated(String),
    /// A flag handed a value.
    UnexpectedArgument(String),
}

/// Mathematical image of a parse failure.
pub enum FailV {
    ArgumentMissing(Seq<char>),
    UnrecognizedOption(Seq<char>),
    OptionDuplicated(Seq<char>),
    UnexpectedArgument(Seq<char>),
}

impl View for ParseError {
    type V = FailV;

    open spec fn view(&self) -> FailV {
        match self {
            ParseError::ArgumentMissing(nm) => FailV::ArgumentMissing(nm@),
            ParseError::UnrecognizedOption(nm) => FailV::UnrecognizedOption(nm@),
            ParseError::OptionDuplicated(nm) => FailV::OptionDuplicated(nm@),
            ParseError::UnexpectedArgument(nm) => FailV::UnexpectedArgument(nm@),
        }
    }
}

/// The message reported for a parse failure.
pub open spec fn fail_text(f: FailV) -> Seq<char> {
    match f {
        FailV::ArgumentMissing(nm) => "Argument to option '"@ + nm + "' missing"@,
        FailV::UnrecognizedOption(nm) => "Unrecognized option: '"@ + nm + "'"@,
        FailV::OptionDuplicated(nm) => "Option '"@ + nm + "' given more than once"@,
        FailV::UnexpectedArgument(nm) => "Option '"@ + nm + "' does not take an argument"@,
    }
}

impl ParseError {
    /// Returns the message reported for this failure.
    pub fn message(&self) -> (r: String)
        ensures
            r@ == fail_text(self@),
    {
        match self {
            ParseError::ArgumentMissing(nm) => {
                let mut s = String::from_str("Argument to option '");
                s.append(nm.as_str());
                s.append("' missing");
                s
            },
            ParseError::UnrecognizedOption(nm) => {
                let mut s = String::from_str("Unrecognized option: '");
                s.append(nm.as_str());
                s.append("'");
                s
            },
            ParseError::OptionDuplicated(nm) => {
                let mut s = String::from_str("Option '");
                s.append(nm.as_str());
                s.append("' given more than once");
                s
            },
            ParseError::UnexpectedArgument(nm) => {
                let mut s = String::from_str("Option '");
                s.append(nm.as_str());
                s.append("' does not take an argument");
                s
            },
        }
    }
}

/// A match-set with no occurrences, one empty list per option.
pub open spec fn empty_vals(n: nat) -> Seq<Seq<Option<Seq<char>>>> {
    Seq::new(n, |i: int| Seq::empty())
}

/// Appends one occurrence of option `i` to a match-set.
pub open spec fn record(
    vals: Seq<Seq<Option<Seq<char>>>>,
    i: int,
    occ: Option<Seq<char>>,
) -> Seq<Seq<Option<Seq<char>>>> {
    vals.update(i, vals[i].push(occ))
}

/// A token that is not an option: it does not begin with `-`, or is `-`
/// alone.
pub open spec fn is_free_tok(t: Seq<char>) -> bool {
    !(t.len() > 1 && t[0] == '-')
}

/// The token `--`, after which all tokens are free.
pub open spec fn is_end_marker(t: Seq<char>) -> bool {
    t.len() == 2 && t[0] == '-' && t[1] == '-'
}

/// A token carrying a long name: `--` followed by at least one character.
pub open spec fn is_long_tok(t: Seq<char>) -> bool {
    t.len() > 2 && t[0] == '-' && t[1] == '-'
}

/// The first position of `=` in a sequence, if any.
pub open spec fn first_eq(s: Seq<char>) -> Option<int>
    decreases s.len(),
{
    if s.len() == 0 {
        None
    } else if s[0] == '=' {
        Some(0)
    } else {
        match first_eq(s.drop_first()) {
            Some(i) => Some(i + 1),
            None => None,
        }
    }
}

/// `first_eq` answers `None` exactly when no `=` occurs, and otherwise
/// the first position of one.
pub proof fn lemma_first_eq(s: Seq<char>)
    ensures
        first_eq(s) is None <==> (forall|j: int| 0 <= j < s.len() ==> s[j] != '='),
        first_eq(s) matches Some(k) ==> 0 <= k < s.len() && s[k] == '=' && (forall|j: int|
            0 <= j < k ==> s[j] != '='),
    decreases s.len(),
{
    if s.len() > 0 && s[0] != '=' {
        lemma_first_eq(s.drop_first());
        let rest = s.drop_first();
        assert(forall|j: int| 1 <= j < s.len() ==> s[j] == #[trigger] rest[j - 1]);
        if first_eq(s) is None {
            assert forall|j: int| 0 <= j < s.len() implies s[j] != '=' by {
                if j >= 1 {
                    assert(rest[j - 1] != '=');
                }
            }
        }
        if first_eq(s) is Some {
            let k = first_eq(s)->0;
            assert(first_eq(rest) == Some(k - 1));
            assert forall|j: int| 0 <= j < k implies s[j] != '=' by {
                if j >= 1 {
                    assert(rest[j - 1] != '=');
                }
            }
        }
    }
}

/// The position of `=` in the sequence is what `first_eq` returns.
pub proof fn lemma_first_eq_at(s: Seq<char>, k: int)
    requires
        0 <= k < s.len(),
        s[k] == '=',
        forall|j: int| 0 <= j < k ==> s[j] != '=',
    ensures
        first_eq(s) == Some(k),
    decreases s.len(),
{
    if k > 0 {
        lemma_first_eq_at(s.drop_first(), k - 1);
    }
}

/// One token carrying a long name, applied to a match-set: the second
/// component tells whether the next token was consumed as the value.
pub open spec fn long_spec(
    opts: Seq<OptDefV>,
    t: Seq<char>,
    vals: Seq<Seq<Option<Seq<char>>>>,
    next: Option<Seq<char>>,
) -> Result<(Seq<Seq<Option<Seq<char>>>>, bool), FailV> {
    let tail = t.skip(2);
    let pieces = match first_eq(tail) {
        Some(k) => (tail.take(k), Some(tail.skip(k + 1))),
        None => (tail, None),
    };
    let nm = name_of(pieces.0);
    match find_name(opts, nm) {
        None => Err(FailV::UnrecognizedOption(display_name(nm))),
        Some(i) => if !opts[i].takes_value {
            if pieces.1 is Some {
                Err(FailV::UnexpectedArgument(display_name(nm)))
            } else {
                Ok((record(vals, i, None), false))
            }
        } else {
            match pieces.1 {
                Some(v) => Ok((record(vals, i, Some(v)), false)),
                None => match next {
                    Some(v) => Ok((record(vals, i, Some(v)), true)),
                    None => Err(FailV::ArgumentMissing(display_name(nm))),
                },
            }
        },
    }
}

/// A cluster of short names, applied to a match-set one character at a
/// time: the first value-taking name takes the rest of the cluster as its
/// value, or the next token when nothing follows it.
pub open spec fn cluster_spec(
    opts: Seq<OptDefV>,
    cs: Seq<char>,
    vals: Seq<Seq<Option<Seq<char>>>>,
    next: Option<Seq<char>>,
) -> Result<(Seq<Seq<Option<Seq<char>>>>, bool), FailV>
    decreases cs.len(),
{
    if cs.len() == 0 {
        Ok((vals, false))
    } else {
        let c = cs[0];
        match find_name(opts, NameV::Short(c)) {
            None => Err(FailV::UnrecognizedOption(seq![c])),
            Some(i) => if !opts[i].takes_value {
                cluster_spec(opts, cs.drop_first(), record(vals, i, None), next)
            } else {
                if cs.len() > 1 {
                    Ok((record(vals, i, Some(cs.drop_first())), false))
                } else {
                    match next {
                        Some(v) => Ok((record(vals, i, Some(v)), true)),
                        None => Err(FailV::ArgumentMissing(seq![c])),
                    }
                }
            },
        }
    }
}

/// Applies the tokens to a match-set, left to right.
pub open spec fn parse_loop_spec(
    opts: Seq<OptDefV>,
    toks: Seq<Seq<char>>,
    vals: Seq<Seq<Option<Seq<char>>>>,
) -> Result<Seq<Seq<Option<Seq<char>>>>, FailV>
    decreases toks.len(),
{
    if toks.len() == 0 {
        Ok(vals)
    } else {
        let t = toks[0];
        let next = if toks.len() > 1 {
            Some(toks[1])
        } else {
            None
        };
        if is_free_tok(t) {
            parse_loop_spec(opts, toks.drop_first(), vals)
        } else if is_end_marker(t) {
            Ok(vals)
        } else if is_long_tok(t) {
            match long_spec(opts, t, vals, next) {
                Err(f) => Err(f),
                Ok(step) => parse_loop_spec(
                    opts,
                    toks.skip(if step.1 && toks.len() >= 2 { 2int } else { 1int }),
                    step.0,
                ),
            }
        } else {
            match cluster_spec(opts, t.skip(1), vals, next) {
                Err(f) => Err(f),
                Ok(step) => parse_loop_spec(
                    opts,
                    toks.skip(if step.1 && toks.len() >= 2 { 2int } else { 1int }),
                    step.0,
                ),
            }
        }
    }
}

/// The first option occurring more than once, reported under its long
/// name.
pub open spec fn dup_check(
    opts: Seq<OptDefV>,
    vals: Seq<Seq<Option<Seq<char>>>>,
    k: nat,
) -> Option<FailV>
    decreases opts.len() - k,
{
    if k >= opts.len() {
        None
    } else if vals[k as int].len() > 1 {
        Some(FailV::OptionDuplicated(opts[k as int].long))
    } else {
        dup_check(opts, vals, k + 1)
    }
}

/// The whole parse: tokens applied left to right, then each option
/// checked to occur at most once.
pub open spec fn parse_spec(opts: Seq<OptDefV>, toks: Seq<Seq<char>>) -> Result<
    Seq<Seq<Option<Seq<char>>>>,
    FailV,
> {
    match parse_loop_spec(opts, toks, empty_vals(opts.len())) {
        Err(f) => Err(f),
        Ok(vals) => match dup_check(opts, vals, 0) {
            Some(f) => Err(f),
            None => Ok(vals),
        },
    }
}

/// Appends one occurrence of option `i`.
fn record_occ(vals: &mut Vec<Vec<Option<String>>>, i: usize, occ: Option<String>)
    requires
        i < old(vals)@.len(),
    ensures
        final(vals).deep_view() == record(old(vals).deep_view(), i as int, occ.deep_view()),
        final(vals)@.len() == old(vals)@.len(),
{
    let mut row = vals.remove(i);
    row.push(occ);
    vals.insert(i, row);
    proof {
        assert(vals.deep_view() =~~= record(old(vals).deep_view(), i as int, occ.deep_view()));
    }
}

/// Finds the first option whose short form is the given character.
fn find_short_opt(opts: &Vec<OptDef>, c: char) -> (r: Option<usize>)
    ensures
        r is Some <==> find_name(opts.deep_view(), NameV::Short(c)) is Some,
        r matches Some(u) ==> find_name(opts.deep_view(), NameV::Short(c)) == Some(u as int),
{
    let mut i: usize = 0;
    while i < opts.len()
        invariant
            i <= opts@.len(),
            opts.deep_view().len() == opts@.len(),
            forall|j: int|
                0 <= j < i ==> !opt_has_name(#[trigger] opts.deep_view()[j], NameV::Short(c)),
        decreases opts@.len() - i,
    {
        let o = &opts[i];
        let hit = o.short.as_str().unicode_len() == 1 && o.short.as_str().get_char(0) == c;
        proof {
            if hit {
                assert(o.short@ =~= seq![c]);
            } else if o.short@ == seq![c] {
                assert(o.short@.len() == 1 && o.short@[0] == c);
            }
        }
        if hit {
            proof {
                lemma_find_name_first(opts.deep_view(), NameV::Short(c), i as int);
            }
            return Some(i);
        }
        i += 1;
    }
    proof {
        lemma_find_name(opts.deep_view(), NameV::Short(c));
    }
    None
}

/// Finds the first `=` at or after position `from`.
fn find_eq(t: &str, from: usize) -> (r: Option<usize>)
    requires
        from <= t@.len(),
    ensures
        (match (r, first_eq(t@.skip(from as int))) {
            (Some(u), Some(k)) => u == from + k && from <= u < t@.len(),
            (None, None) => true,
            _ => false,
        }),
{
    proof {
        lemma_first_eq(t@.skip(from as int));
    }
    let len = t.unicode_len();
    let mut j: usize = from;
    while j < len
        invariant
            from <= j <= len,
            len == t@.len(),
            forall|k: int| from <= k < j ==> t@[k] != '=',
        decreases len - j,
    {
        if t.get_char(j) == '=' {
            proof {
                assert forall|k: int| 0 <= k < j - from implies t@.skip(from as int)[k]
                    != '=' by {
                    assert(t@.skip(from as int)[k] == t@[k + from]);
                }
                lemma_first_eq_at(t@.skip(from as int), j - from);
            }
            return Some(j);
        }
        j += 1;
    }
    proof {
        assert forall|k: int| 0 <= k < t@.skip(from as int).len() implies t@.skip(from as int)[k]
            != '=' by {
            assert(t@.skip(from as int)[k] == t@[k + from]);
        }
        lemma_first_eq(t@.skip(from as int));
    }
    None
}

/// A failing cluster fails the whole token step.
proof fn cluster_err_propagates(
    opts: Seq<OptDefV>,
    toks: Seq<Seq<char>>,
    i0: int,
    tv: Seq<char>,
    entry_vals: Seq<Seq<Option<Seq<char>>>>,
    next: Option<Seq<char>>,
    f: FailV,
)
    requires
        0 <= i0 < toks.len(),
        tv == toks[i0],
        tv.len() > 1,
        tv[0] == '-',
        tv[1] != '-',
        next == (if toks.len() - i0 > 1 {
            Some(toks[i0 + 1])
        } else {
            None::<Seq<char>>
        }),
        cluster_spec(opts, tv.skip(1), entry_vals, next) == Err::<
            (Seq<Seq<Option<Seq<char>>>>, bool),
            FailV,
        >(f),
    ensures
        parse_loop_spec(opts, toks.skip(i0), entry_vals) == Err::<
            Seq<Seq<Option<Seq<char>>>>,
            FailV,
        >(f),
{
    let rest = toks.skip(i0);
    assert(rest[0] == tv);
    assert(!is_free_tok(tv));
    assert(!is_end_marker(tv));
    assert(!is_long_tok(tv));
    if rest.len() > 1 {
        assert(rest[1] == toks[i0 + 1]);
    }
}

/// `display_name` undoes `name_of`.
proof fn lemma_display_name_of(s: Seq<char>)
    ensures
        display_name(name_of(s)) == s,
{
    if s.len() == 1 && (s[0] as int) < 128 {
        assert(seq![s[0]] =~= s);
    }
}

/// Validates raw tokens against the schema, producing the match-set or
/// the first failure.
pub fn parse_tokens(opts: Vec<OptDef>, tokens: &Vec<String>) -> (r: Result<Matches, ParseError>)
    ensures
        (match (r, parse_spec(opts.deep_view(), tokens.deep_view())) {
            (Ok(m), Ok(vals)) => m.wf() && m.opts_view() == opts.deep_view() && m.vals_view()
                == vals,
            (Err(e), Err(f)) => e@ == f,
            _ => false,
        }),
{
    let ghost opts_v = opts.deep_view();
    let ghost toks = tokens.deep_view();
    let n = opts.len();
    let mut vals: Vec<Vec<Option<String>>> = Vec::new();
    while vals.len() < n
        invariant
            vals@.len() <= n,
            forall|j: int| 0 <= j < vals@.len() ==> (#[trigger] vals@[j])@.len() == 0,
        decreases n - vals@.len(),
    {
        vals.push(Vec::new());
    }
    proof {
        assert(vals.deep_view() =~~= empty_vals(opts_v.len()));
        assert(toks.skip(0) =~= toks);
    }
    let mut i: usize = 0;
    while i < tokens.len()
        invariant
            opts_v == opts.deep_view(),
            toks == tokens.deep_view(),
            toks.len() == tokens@.len(),
            opts_v.len() == opts@.len(),
            n == opts@.len(),
            i <= tokens@.len(),
            vals@.len() == n,
            parse_loop_spec(opts_v, toks, empty_vals(opts_v.len())) == parse_loop_spec(
                opts_v,
                toks.skip(i as int),
                vals.deep_view(),
            ),
        decreases tokens@.len() - i,
    {
        let ghost i0 = i as int;
        let t: &String = &tokens[i];
        let ghost tv = toks[i0];
        let ghost entry_vals = vals.deep_view();
        let ghost next: Option<Seq<char>> = if toks.len() - i0 > 1 {
            Some(toks[i0 + 1])
        } else {
            None
        };
        proof {
            assert(t@ == tv);
            assert(toks.skip(i0)[0] == tv);
            assert(toks.skip(i0).drop_first() =~= toks.skip(i0 + 1));
            assert(toks.skip(i0).skip(1) =~= toks.skip(i0 + 1));
            if toks.len() - i0 > 1 {
                assert(toks.skip(i0).skip(2) =~= toks.skip(i0 + 2));
                assert(toks.skip(i0)[1] == toks[i0 + 1]);
            }
        }
        let tlen = t.as_str().unicode_len();
        if tlen <= 1 || t.as_str().get_char(0) != '-' {
            // free argument: skipped
            proof {
                assert(is_free_tok(tv));
                assert(parse_loop_spec(opts_v, toks.skip(i0), entry_vals) == parse_loop_spec(
                    opts_v,
                    toks.skip(i0 + 1),
                    entry_vals,
                ));
            }
            i += 1;
        } else if tlen == 2 && t.as_str().get_char(1) == '-' {
            // end of options: everything after is free
            proof {
                assert(parse_loop_spec(opts_v, toks.skip(i0), entry_vals) == Ok::<_, FailV>(
                    entry_vals,
                ));
                assert(toks.skip(toks.len() as int) =~= Seq::<Seq<char>>::empty());
            }
            i = tokens.len();
        } else if t.as_str().get_char(1) == '-' {
            // long name, optionally =value
            let pieces: (usize, Option<String>) = match find_eq(t.as_str(), 2) {
                Some(k) => (k, Some(t.as_str().substring_char(k + 1, tlen).to_owned())),
                None => (tlen, None),
            };
            let name_end = pieces.0;
            let namepart: &str = t.as_str().substring_char(2, name_end);
            proof {
                assert(tv.skip(2).take(name_end - 2) =~= tv.subrange(2, name_end as int));
                if pieces.1 is Some {
                    assert(tv.skip(2).skip(name_end - 2 + 1) =~= tv.subrange(
                        name_end as int + 1,
                        tlen as int,
                    ));
                }
                lemma_display_name_of(namepart@);
            }
            let ghost nm = name_of(namepart@);
            let ghost step = long_spec(opts_v, tv, entry_vals, next);
            match find_opt(&opts, namepart) {
                None => {
                    let e = ParseError::UnrecognizedOption(namepart.to_owned());
                    proof {
                        assert(step == Err::<(Seq<Seq<Option<Seq<char>>>>, bool), FailV>(e@));
                        assert(parse_loop_spec(opts_v, toks.skip(i0), entry_vals) == Err::<
                            Seq<Seq<Option<Seq<char>>>>,
                            FailV,
                        >(e@));
                    }
                    return Err(e);
                },
                Some(oid) => {
                    proof {
                        lemma_find_name(opts_v, nm);
                    }
                    if !opts[oid].takes_value {
                        match pieces.1 {
                            Some(_) => {
                                let e = ParseError::UnexpectedArgument(namepart.to_owned());
                                proof {
                                    assert(parse_loop_spec(opts_v, toks.skip(i0), entry_vals)
                                        == Err::<Seq<Seq<Option<Seq<char>>>>, FailV>(e@));
                                }
                                return Err(e);
                            },
                            None => {
                                record_occ(&mut vals, oid, None);
                                proof {
                                    assert(step == Ok::<_, FailV>((vals.deep_view(), false)));
                                    assert(parse_loop_spec(opts_v, toks.skip(i0), entry_vals)
                                        == parse_loop_spec(
                                        opts_v,
                                        toks.skip(i0 + 1),
                                        vals.deep_view(),
                                    ));
                                }
                                i += 1;
                            },
                        }
                    } else {
                        match pieces.1 {
                            Some(v) => {
                                record_occ(&mut vals, oid, Some(v));
                                proof {
                                    assert(step == Ok::<_, FailV>((vals.deep_view(), false)));
                                    assert(parse_loop_spec(opts_v, toks.skip(i0), entry_vals)
                                        == parse_loop_spec(
                                        opts_v,
                                        toks.skip(i0 + 1),
                                        vals.deep_view(),
                                    ));
                                }
                                i += 1;
                            },
                            None => {
                                if i + 1 < tokens.len() {
                                    let v = tokens[i + 1].clone();
                                    record_occ(&mut vals, oid, Some(v));
                                    proof {
                                        assert(step == Ok::<_, FailV>((vals.deep_view(), true)));
                                        assert(parse_loop_spec(opts_v, toks.skip(i0), entry_vals)
                                            == parse_loop_spec(
                                            opts_v,
                                            toks.skip(i0 + 2),
                                            vals.deep_view(),
                                        ));
                                    }
                                    i += 2;
                                } else {
                                    let e = ParseError::ArgumentMissing(namepart.to_owned());
                                    proof {
                                        assert(parse_loop_spec(opts_v, toks.skip(i0), entry_vals)
                                            == Err::<Seq<Seq<Option<Seq<char>>>>, FailV>(e@));
                                    }
                                    return Err(e);
                                }
                            },
                        }
                    }
                },
            }
        } else {
            // cluster of short names
            let mut j: usize = 1;
            let mut consumed = false;
            let mut done = false;
            while j < tlen && !done
                invariant
                    opts_v == opts.deep_view(),
                    toks == tokens.deep_view(),
                    toks.len() == tokens@.len(),
                    opts_v.len() == opts@.len(),
                    n == opts@.len(),
                    0 <= i0 < tokens@.len(),
                    tokens@.len() <= usize::MAX,
                    i == i0,
                    tv == toks[i0],
                    tlen == tv.len(),
                    tlen > 1,
                    tv[0] == '-',
                    tv[1] != '-',
                    next == (if toks.len() - i0 > 1 {
                        Some(toks[i0 + 1])
                    } else {
                        None::<Seq<char>>
                    }),
                    1 <= j <= tlen,
                    vals@.len() == n,
                    consumed ==> toks.len() - i0 > 1,
                    !done ==> consumed == false,
                    !done ==> cluster_spec(opts_v, tv.skip(1), entry_vals, next) == cluster_spec(
                        opts_v,
                        tv.skip(j as int),
                        vals.deep_view(),
                        next,
                    ),
                    done ==> cluster_spec(opts_v, tv.skip(1), entry_vals, next) == Ok::<_, FailV>(
                        (vals.deep_view(), consumed),
                    ),
                    parse_loop_spec(opts_v, toks, empty_vals(opts_v.len())) == parse_loop_spec(
                        opts_v,
                        toks.skip(i0),
                        entry_vals,
                    ),
                decreases tlen - j + (if done {
                    0int
                } else {
                    1int
                }),
            {
                let ghost cs = tv.skip(j as int);
                let c = tokens[i].as_str().get_char(j);
                proof {
                    assert(cs[0] == tv[j as int]);
                    assert(cs.drop_first() =~= tv.skip(j as int + 1));
                    assert(tv.subrange(j as int, j as int + 1) =~= seq![tv[j as int]]);
                }
                match find_short_opt(&opts, c) {
                    None => {
                        let e = ParseError::UnrecognizedOption(
                            tokens[i].as_str().substring_char(j, j + 1).to_owned(),
                        );
                        proof {
                            assert(cluster_spec(opts_v, cs, vals.deep_view(), next) == Err::<
                                (Seq<Seq<Option<Seq<char>>>>, bool),
                                FailV,
                            >(e@));
                            cluster_err_propagates(opts_v, toks, i0, tv, entry_vals, next, e@);
                        }
                        return Err(e);
                    },
                    Some(oid) => {
                        proof {
                            lemma_find_name(opts_v, NameV::Short(c));
                        }
                        if !opts[oid].takes_value {
                            record_occ(&mut vals, oid, None);
                            j += 1;
                        } else {
                            if j + 1 < tlen {
                                let v = tokens[i].as_str().substring_char(j + 1, tlen).to_owned();
                                proof {
                                    assert(v@ =~= cs.drop_first());
                                }
                                record_occ(&mut vals, oid, Some(v));
                                done = true;
                            } else if i + 1 < tokens.len() {
                                let v = tokens[i + 1].clone();
                                record_occ(&mut vals, oid, Some(v));
                                consumed = true;
                                done = true;
                            } else {
                                let e = ParseError::ArgumentMissing(
                                    tokens[i].as_str().substring_char(j, j + 1).to_owned(),
                                );
                                proof {
                                    assert(cs.len() == 1);
                                    assert(cluster_spec(opts_v, cs, vals.deep_view(), next)
                                        == Err::<(Seq<Seq<Option<Seq<char>>>>, bool), FailV>(e@));
                                    cluster_err_propagates(
                                        opts_v,
                                        toks,
                                        i0,
                                        tv,
                                        entry_vals,
                                        next,
                                        e@,
                                    );
                                }
                                return Err(e);
                            }
                        }
                    },
                }
            }
            proof {
                if !done {
                    assert(tv.skip(tlen as int) =~= Seq::<char>::empty());
                }
                assert(cluster_spec(opts_v, tv.skip(1), entry_vals, next) == Ok::<_, FailV>(
                    (vals.deep_view(), consumed),
                ));
                assert(toks.skip(i0)[0] == tv);
                assert(toks.skip(i0).skip(1) =~= toks.skip(i0 + 1));
                if toks.len() - i0 > 1 {
                    assert(toks.skip(i0).skip(2) =~= toks.skip(i0 + 2));
                    assert(toks.skip(i0)[1] == toks[i0 + 1]);
                }
                assert(parse_loop_spec(opts_v, toks.skip(i0), entry_vals) == parse_loop_spec(
                    opts_v,
                    toks.skip(if consumed {
                        i0 + 2
                    } else {
                        i0 + 1
                    }),
                    vals.deep_view(),
                ));
            }
            if consumed {
                proof {
                    assert(i + 2 <= tokens@.len());
                }
                i += 2;
            } else {
                i += 1;
            }
        }
    }
    proof {
        assert(toks.skip(toks.len() as int) =~= Seq::<Seq<char>>::empty());
        assert(parse_loop_spec(opts_v, toks, empty_vals(opts_v.len())) == Ok::<_, FailV>(
            vals.deep_view(),
        ));
    }
    // each option may occur at most once
    let mut k: usize = 0;
    while k < n
        invariant
            opts_v == opts.deep_view(),
            toks == tokens.deep_view(),
            opts_v.len() == opts@.len(),
            n == opts@.len(),
            k <= n,
            vals@.len() == n,
            parse_loop_spec(opts_v, toks, empty_vals(opts_v.len())) == Ok::<_, FailV>(
                vals.deep_view(),
            ),
            dup_check(opts_v, vals.deep_view(), 0) == dup_check(opts_v, vals.deep_view(), k as nat),
        decreases n - k,
    {
        if vals[k].len() > 1 {
            let e = ParseError::OptionDuplicated(opts[k].long.clone());
            proof {
                assert(dup_check(opts_v, vals.deep_view(), k as nat) == Some(e@));
            }
            return Err(e);
        }
        k += 1;
    }
    proof {
        assert(dup_check(opts_v, vals.deep_view(), n as nat) is None);
    }
    let m = Matches { opts, vals };
    Ok(m)
}

} // verus!
