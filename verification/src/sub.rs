use crate::errors::TransmuteError;
use vstd::prelude::*;

verus! {

/// One fragment of a tokenized substitution template: literal text, or a
/// variable reference written `${name}`.
#[derive(Debug, PartialEq, Eq)]
pub enum SubValue {
    String(String),
    Variable(String),
}

/// The mathematical image of a fragment.
pub enum SubFrag {
    Lit(Seq<char>),
    Var(Seq<char>),
}

impl View for SubValue {
    type V = SubFrag;

    open spec fn view(&self) -> SubFrag {
        match self {
            SubValue::String(s) => SubFrag::Lit(s@),
            SubValue::Variable(s) => SubFrag::Var(s@),
        }
    }
}

pub open spec fn frags_view(s: Seq<SubValue>) -> Seq<SubFrag> {
    Seq::new(s.len(), |i: int| s[i]@)
}

/// Position `j` starts a `${` variable opener.
pub open spec fn is_var_start(s: Seq<char>, j: int) -> bool {
    0 <= j && j + 1 < s.len() && s[j] == '$' && s[j + 1] == '{'
}

/// The first variable opener at or after position `j`.
pub open spec fn find_var_start_at(s: Seq<char>, j: int) -> Option<int>
    decreases s.len() - j,
{
    if j < 0 || j >= s.len() {
        Option::None
    } else if is_var_start(s, j) {
        Option::Some(j)
    } else {
        find_var_start_at(s, j + 1)
    }
}

/// The first closing brace at or after position `j`.
pub open spec fn find_close_at(s: Seq<char>, j: int) -> Option<int>
    decreases s.len() - j,
{
    if j < 0 || j >= s.len() {
        Option::None
    } else if s[j] == '}' {
        Option::Some(j)
    } else {
        find_close_at(s, j + 1)
    }
}

pub proof fn lemma_find_var_start_bounds(s: Seq<char>, j: int)
    ensures
        (match find_var_start_at(s, j) {
            Option::Some(k) => j <= k < s.len() && is_var_start(s, k),
            Option::None => true,
        }),
    decreases s.len() - j,
{
    if j >= 0 && j < s.len() && !is_var_start(s, j) {
        lemma_find_var_start_bounds(s, j + 1);
    }
}

pub proof fn lemma_find_close_bounds(s: Seq<char>, j: int)
    ensures
        (match find_close_at(s, j) {
            Option::Some(k) => j <= k < s.len() && s[k] == '}',
            Option::None => true,
        }),
    decreases s.len() - j,
{
    if j >= 0 && j < s.len() && s[j] != '}' {
        lemma_find_close_bounds(s, j + 1);
    }
}

/// What the tokenizer yields on a template string: the ordered fragment
/// sequence, with literal text kept maximal, or the lexical error for an
/// unclosed `${`.
pub open spec fn sub_parse_spec(s: Seq<char>) -> Result<Seq<SubFrag>, Seq<char>>
    decreases s.len(),
    via sub_parse_spec_dec
{
    if s.len() == 0 {
        Result::Ok(Seq::empty())
    } else {
        match find_var_start_at(s, 0) {
            Option::None => Result::Ok(seq![SubFrag::Lit(s)]),
            Option::Some(j) => if j > 0 {
                match sub_parse_spec(s.skip(j)) {
                    Result::Ok(rest) => Result::Ok(seq![SubFrag::Lit(s.take(j))] + rest),
                    Result::Err(e) => Result::Err(e),
                }
            } else {
                match find_close_at(s, 2) {
                    Option::None => Result::Err("unterminated variable in substitution template"@),
                    Option::Some(k) => match sub_parse_spec(s.skip(k + 1)) {
                        Result::Ok(rest) => Result::Ok(
                            seq![SubFrag::Var(s.subrange(2, k))] + rest,
                        ),
                        Result::Err(e) => Result::Err(e),
                    },
                }
            },
        }
    }
}

#[via_fn]
proof fn sub_parse_spec_dec(s: Seq<char>) {
    lemma_find_var_start_bounds(s, 0);
    lemma_find_close_bounds(s, 2);
}

/// The first variable opener of the whole slice.
fn find_var_start(s: &str) -> (r: Option<usize>)
    ensures
        (match r {
            Option::Some(j) => find_var_start_at(s@, 0) == Option::Some(j as int),
            Option::None => find_var_start_at(s@, 0) is None,
        }),
{
    let n = s.unicode_len();
    let mut j: usize = 0;
    while j < n
        invariant
            0 <= j <= n,
            n == s@.len(),
            find_var_start_at(s@, 0) == find_var_start_at(s@, j as int),
        decreases n - j,
    {
        if s.get_char(j) == '$' && j + 1 < n && s.get_char(j + 1) == '{' {
            return Option::Some(j);
        }
        j = j + 1;
    }
    Option::None
}

/// The first closing brace at or after `from`.
fn find_close(s: &str, from: usize) -> (r: Option<usize>)
    ensures
        (match r {
            Option::Some(k) => find_close_at(s@, from as int) == Option::Some(k as int),
            Option::None => find_close_at(s@, from as int) is None,
        }),
{
    let n = s.unicode_len();
    let mut k: usize = from;
    while k < n
        invariant
            from <= k,
            n == s@.len(),
            find_close_at(s@, from as int) == find_close_at(s@, k as int),
        decreases n - k,
    {
        if s.get_char(k) == '}' {
            return Option::Some(k);
        }
        k = k + 1;
    }
    Option::None
}

/// Tokenizes a substitution template string into its ordered fragment
/// sequence: literal text interleaved with `${name}` variable references,
/// exactly in source order.
pub fn sub_parse_tree(s: &str) -> (r: Result<Vec<SubValue>, TransmuteError>)
    ensures
        (match r {
            Result::Ok(v) => sub_parse_spec(s@) == Result::Ok::<_, Seq<char>>(frags_view(v@)),
            Result::Err(e) => sub_parse_spec(s@) == Result::Err::<Seq<SubFrag>, _>(e@),
        }),
    decreases s@.len(),
{
    let n = s.unicode_len();
    if n == 0 {
        let v: Vec<SubValue> = Vec::new();
        proof {
            assert(frags_view(v@) =~= Seq::<SubFrag>::empty());
        }
        return Result::Ok(v);
    }
    match find_var_start(s) {
        Option::None => {
            let mut v: Vec<SubValue> = Vec::new();
            v.push(SubValue::String(s.to_owned()));
            proof {
                assert(frags_view(v@) =~= seq![SubFrag::Lit(s@)]);
            }
            Result::Ok(v)
        },
        Option::Some(j) => {
            proof {
                lemma_find_var_start_bounds(s@, 0);
            }
            if j > 0 {
                let lit = s.substring_char(0, j).to_owned();
                let rest_str = s.substring_char(j, n);
                proof {
                    assert(rest_str@ =~= s@.skip(j as int));
                }
                match sub_parse_tree(rest_str) {
                    Result::Ok(tail) => {
                        let mut v = tail;
                        v.insert(0, SubValue::String(lit));
                        proof {
                            assert(lit@ =~= s@.take(j as int));
                            assert(frags_view(v@) =~= seq![SubFrag::Lit(s@.take(j as int))]
                                + frags_view(v@.skip(1)));
                            assert(v@.skip(1) =~= tail@);
                        }
                        Result::Ok(v)
                    },
                    Result::Err(e) => Result::Err(e),
                }
            } else {
                match find_close(s, 2) {
                    Option::None => Result::Err(
                        TransmuteError::new("unterminated variable in substitution template"),
                    ),
                    Option::Some(k) => {
                        proof {
                            lemma_find_close_bounds(s@, 2);
                        }
                        let name = s.substring_char(2, k).to_owned();
                        let rest_str = s.substring_char(k + 1, n);
                        proof {
                            assert(rest_str@ =~= s@.skip(k + 1 as int));
                        }
                        match sub_parse_tree(rest_str) {
                            Result::Ok(tail) => {
                                let mut v = tail;
                                v.insert(0, SubValue::Variable(name));
                                proof {
                                    assert(frags_view(v@) =~= seq![SubFrag::Var(s@.subrange(2, k as int))]
                                        + frags_view(v@.skip(1)));
                                    assert(v@.skip(1) =~= tail@);
                                }
                                Result::Ok(v)
                            },
                            Result::Err(e) => Result::Err(e),
                        }
                    },
                }
            }
        },
    }
}

} // verus!
