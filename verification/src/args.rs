use vstd::prelude::*;

use vstd::string::StrSliceExecFns;
use vstd::string::StringExecFns;

verus! {

/// Immutable per-run settings: an optional seed for the trial generator and
/// the number of trials to run.
pub struct RunArgs {
    pub seed: Option<u64>,
    pub num_iter: usize,
}

/// The result of reading the command line: either a run with its settings,
/// or the request to print the usage text.
pub enum Args {
    Run(RunArgs),
    Help,
}

/// A fatal configuration error: a flag that needs a value got none, or got
/// one that is not a decimal number in range. The invalid variants carry the
/// offending token.
pub enum ParseError {
    SeedMissing,
    SeedInvalid(String),
    IterMissing,
    IterInvalid(String),
}

/// What parsing a token list yields, over mathematical values.
pub ghost enum ParseOutcome {
    Help,
    Run { seed: Option<u64>, num_iter: usize },
    SeedMissing,
    SeedInvalid { tok: Seq<char> },
    IterMissing,
    IterInvalid { tok: Seq<char> },
}

/// Whether `c` is a decimal digit.
pub open spec fn is_digit(c: char) -> bool {
    48 <= (c as u32) && (c as u32) <= 57
}

/// The value of digit `c`; zero for a non-digit.
pub open spec fn digit_val(c: char) -> nat {
    if is_digit(c) {
        ((c as u32) - 48) as nat
    } else {
        0
    }
}

/// Whether every character of `s` is a decimal digit.
pub open spec fn all_digits(s: Seq<char>) -> bool {
    forall|i: int| 0 <= i < s.len() ==> is_digit(s[i])
}

/// The value of `s` read as decimal digits, most significant first.
pub open spec fn dec_val(s: Seq<char>) -> nat
    decreases s.len(),
{
    if s.len() == 0 {
        0
    } else {
        dec_val(s.drop_last()) * 10 + digit_val(s.last())
    }
}

/// What parsing `s` as a `u64` yields: its decimal value, provided `s` is
/// nonempty, all digits, and in range.
pub open spec fn parse_u64_spec(s: Seq<char>) -> Option<u64> {
    if s.len() > 0 && all_digits(s) && dec_val(s) <= u64::MAX {
        Some(dec_val(s) as u64)
    } else {
        None
    }
}

/// What parsing `s` as a `usize` yields, as for `parse_u64_spec`.
pub open spec fn parse_usize_spec(s: Seq<char>) -> Option<usize> {
    if s.len() > 0 && all_digits(s) && dec_val(s) <= usize::MAX {
        Some(dec_val(s) as usize)
    } else {
        None
    }
}

/// A longer run of digits reads as at least as large a value.
proof fn lemma_dec_val_take_le(s: Seq<char>, j: int)
    requires
        0 <= j <= s.len(),
    ensures
        dec_val(s.take(j)) <= dec_val(s),
    decreases s.len() - j,
{
    if j < s.len() {
        assert(s.take(j + 1).drop_last() =~= s.take(j));
        assert(s.take(j + 1).last() == s[j]);
        lemma_dec_val_take_le(s, j + 1);
    } else {
        assert(s.take(j) =~= s);
    }
}

/// Reads `s` as a decimal `u64`: `None` on an empty string, a non-digit, or
/// a value above `u64::MAX`.
pub fn parse_u64(s: &str) -> (r: Option<u64>)
    ensures
        r == parse_u64_spec(s@),
{
    let len = s.unicode_len();
    if len == 0 {
        return None;
    }
    let mut acc: u64 = 0;
    let mut j: usize = 0;
    proof {
        assert(s@.take(0) =~= Seq::<char>::empty());
    }
    while j < len
        invariant
            j <= len,
            len == s@.len(),
            acc == dec_val(s@.take(j as int)),
            all_digits(s@.take(j as int)),
        decreases len - j,
    {
        let c = s.get_char(j);
        let code = c as u32;
        proof {
            assert(s@.take(j as int + 1).drop_last() =~= s@.take(j as int));
            assert(s@.take(j as int + 1).last() == s@[j as int]);
        }
        if code < 48 || code > 57 {
            assert(!all_digits(s@));
            return None;
        }
        let d = (code - 48) as u64;
        let widened = match acc.checked_mul(10) {
            Some(v) => v,
            None => {
                proof {
                    lemma_dec_val_take_le(s@, j as int + 1);
                }
                return None;
            },
        };
        acc = match widened.checked_add(d) {
            Some(v) => v,
            None => {
                proof {
                    lemma_dec_val_take_le(s@, j as int + 1);
                }
                return None;
            },
        };
        j = j + 1;
    }
    proof {
        assert(s@.take(len as int) =~= s@);
    }
    Some(acc)
}

/// Reads `s` as a decimal `usize`, as `parse_u64` does.
pub fn parse_usize(s: &str) -> (r: Option<usize>)
    ensures
        r == parse_usize_spec(s@),
{
    match parse_u64(s) {
        Some(v) => {
            if v <= usize::MAX as u64 {
                Some(v as usize)
            } else {
                None
            }
        },
        None => None,
    }
}

/// Whether `tok` is one of the five recognized flags.
pub open spec fn recognized(tok: Seq<char>) -> bool {
    tok == "-h"@ || tok == "--help"@ || tok == "-s"@ || tok == "--seed"@ || tok == "-n"@
}

/// Parsing the tokens of `rest` with `seed` and `num_iter` gathered so far.
/// A help flag ends parsing at once; a seed or trial-count flag consumes the
/// following token as its value; any other token is ignored.
pub open spec fn parse_from(seed: Option<u64>, num_iter: usize, rest: Seq<Seq<char>>) -> ParseOutcome
    decreases rest.len(),
{
    if rest.len() == 0 {
        ParseOutcome::Run { seed, num_iter }
    } else {
        let tok = rest[0];
        if tok == "-h"@ || tok == "--help"@ {
            ParseOutcome::Help
        } else if tok == "-s"@ || tok == "--seed"@ {
            if rest.len() == 1 {
                ParseOutcome::SeedMissing
            } else {
                match parse_u64_spec(rest[1]) {
                    Some(v) => parse_from(Some(v), num_iter, rest.skip(2)),
                    None => ParseOutcome::SeedInvalid { tok: rest[1] },
                }
            }
        } else if tok == "-n"@ {
            if rest.len() == 1 {
                ParseOutcome::IterMissing
            } else {
                match parse_usize_spec(rest[1]) {
                    Some(v) => parse_from(seed, v, rest.skip(2)),
                    None => ParseOutcome::IterInvalid { tok: rest[1] },
                }
            }
        } else {
            parse_from(seed, num_iter, rest.skip(1))
        }
    }
}

/// Parsing a whole token list, from the default configuration: no seed and a
/// single trial.
pub open spec fn parse_spec(args: Seq<Seq<char>>) -> ParseOutcome {
    parse_from(None, 1, args)
}

/// The views of a list of tokens.
pub open spec fn views_of(args: Seq<String>) -> Seq<Seq<char>> {
    args.map_values(|a: String| a@)
}

/// The outcome that an exec parse result denotes.
pub open spec fn outcome_of(r: Result<Args, ParseError>) -> ParseOutcome {
    match r {
        Ok(Args::Help) => ParseOutcome::Help,
        Ok(Args::Run(ra)) => ParseOutcome::Run { seed: ra.seed, num_iter: ra.num_iter },
        Err(ParseError::SeedMissing) => ParseOutcome::SeedMissing,
        Err(ParseError::SeedInvalid(t)) => ParseOutcome::SeedInvalid { tok: t@ },
        Err(ParseError::IterMissing) => ParseOutcome::IterMissing,
        Err(ParseError::IterInvalid(t)) => ParseOutcome::IterInvalid { tok: t@ },
    }
}

impl Args {
    /// Reads the command-line tokens. `-h` or `--help` at a flag position
    /// ends parsing with `Help`; `-s SEED`/`--seed SEED` and `-n NUM` set
    /// the seed and the trial count; an unrecognized token is ignored.
    /// A missing or malformed value is a fatal configuration error.
    pub fn parse(args: &Vec<String>) -> (r: Result<Args, ParseError>)
        ensures
            outcome_of(r) == parse_spec(views_of(args@)),
    {
        let ghost views = views_of(args@);
        let flag_h = String::from_str("-h");
        let flag_help = String::from_str("--help");
        let flag_s = String::from_str("-s");
        let flag_seed = String::from_str("--seed");
        let flag_n = String::from_str("-n");
        let mut seed: Option<u64> = None;
        let mut num_iter: usize = 1;
        let mut i: usize = 0;
        proof {
            assert(views.skip(0) =~= views);
        }
        while i < args.len()
            invariant
                i <= args@.len(),
                views == views_of(args@),
                flag_h@ == "-h"@,
                flag_help@ == "--help"@,
                flag_s@ == "-s"@,
                flag_seed@ == "--seed"@,
                flag_n@ == "-n"@,
                parse_from(seed, num_iter, views.skip(i as int)) == parse_spec(views),
            decreases args@.len() - i,
        {
            let ghost vs = views.skip(i as int);
            proof {
                assert(vs[0] == views[i as int]);
                assert(views[i as int] == args@[i as int]@);
            }
            let tok = &args[i];
            if tok.eq(&flag_h) || tok.eq(&flag_help) {
                return Ok(Args::Help);
            } else if tok.eq(&flag_s) || tok.eq(&flag_seed) {
                if i + 1 >= args.len() {
                    return Err(ParseError::SeedMissing);
                }
                proof {
                    assert(vs[1] == views[i as int + 1]);
                    assert(views[i as int + 1] == args@[i as int + 1]@);
                    assert(vs.skip(2) =~= views.skip(i as int + 2));
                }
                let val = &args[i + 1];
                match parse_u64(val.as_str()) {
                    Some(v) => {
                        seed = Some(v);
                        i = i + 2;
                    },
                    None => {
                        return Err(ParseError::SeedInvalid(val.clone()));
                    },
                }
            } else if tok.eq(&flag_n) {
                if i + 1 >= args.len() {
                    return Err(ParseError::IterMissing);
                }
                proof {
                    assert(vs[1] == views[i as int + 1]);
                    assert(views[i as int + 1] == args@[i as int + 1]@);
                    assert(vs.skip(2) =~= views.skip(i as int + 2));
                }
                let val = &args[i + 1];
                match parse_usize(val.as_str()) {
                    Some(v) => {
                        num_iter = v;
                        i = i + 2;
                    },
                    None => {
                        return Err(ParseError::IterInvalid(val.clone()));
                    },
                }
            } else {
                proof {
                    assert(vs.skip(1) =~= views.skip(i as int + 1));
                }
                i = i + 1;
            }
        }
        proof {
            assert(views.skip(i as int) =~= Seq::<Seq<char>>::empty());
        }
        Ok(Args::Run(RunArgs { seed, num_iter }))
    }

    /// The usage text: the three recognized flags, one per line.
    pub fn help() -> (r: String)
        ensures
            r@ == help_chars(),
    {
        String::from_str(
            "-h,--help         show help\n-s,--seed SEED    set seed\n-n NUM_ITER       set num iterations",
        )
    }
}

/// The usage text as a character sequence.
pub open spec fn help_chars() -> Seq<char> {
    "-h,--help         show help\n-s,--seed SEED    set seed\n-n NUM_ITER       set num iterations"@
}

impl ParseError {
    /// The diagnostic for this error, naming the missing or offending value.
    pub fn message(&self) -> (r: String)
        ensures
            self matches ParseError::SeedMissing ==> r@ == "no seed given"@,
            self matches ParseError::SeedInvalid(t) ==> r@ == "invalid seed: "@ + t@,
            self matches ParseError::IterMissing ==> r@ == "no num iteration given"@,
            self matches ParseError::IterInvalid(t) ==> r@ == "invalid num iteration: "@ + t@,
    {
        match self {
            ParseError::SeedMissing => String::from_str("no seed given"),
            ParseError::SeedInvalid(t) => {
                let mut r = String::from_str("invalid seed: ");
                r.append(t.as_str());
                r
            },
            ParseError::IterMissing => String::from_str("no num iteration given"),
            ParseError::IterInvalid(t) => {
                let mut r = String::from_str("invalid num iteration: ");
                r.append(t.as_str());
                r
            },
        }
    }
}

/// An unrecognized token at a flag position is ignored: parsing goes on as
/// if it were absent.
pub proof fn lemma_unrecognized_ignored(
    seed: Option<u64>,
    num_iter: usize,
    tok: Seq<char>,
    rest: Seq<Seq<char>>,
)
    requires
        !recognized(tok),
    ensures
        parse_from(seed, num_iter, seq![tok] + rest) == parse_from(seed, num_iter, rest),
{
    assert((seq![tok] + rest)[0] == tok);
    assert((seq![tok] + rest).skip(1) =~= rest);
}

/// A help flag at a flag position prints the usage text whatever follows it,
/// and unrecognized tokens before it do not hide it.
pub proof fn lemma_help_wins(
    seed: Option<u64>,
    num_iter: usize,
    pre: Seq<Seq<char>>,
    flag: Seq<char>,
    rest: Seq<Seq<char>>,
)
    requires
        flag == "-h"@ || flag == "--help"@,
        forall|k: int| 0 <= k < pre.len() ==> !recognized(#[trigger] pre[k]),
    ensures
        parse_from(seed, num_iter, pre + seq![flag] + rest) == ParseOutcome::Help,
    decreases pre.len(),
{
    if pre.len() == 0 {
        assert(pre + seq![flag] + rest =~= seq![flag] + rest);
        assert((seq![flag] + rest)[0] == flag);
    } else {
        let all = pre + seq![flag] + rest;
        assert(all[0] == pre[0]);
        assert(all.skip(1) =~= pre.skip(1) + seq![flag] + rest);
        lemma_help_wins(seed, num_iter, pre.skip(1), flag, rest);
    }
}

} // verus!
