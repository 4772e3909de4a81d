//! Argument parsing for the prompt renderer: `key=value` tokens that select
//! the section to render, the job count, the last exit status, the shell
//! flavor and the prompt suffix.
//!
//! Tokens without an equals sign and unknown keys are ignored; a known key
//! with a malformed value is an error.  Numbers are decimal with an
//! optional leading plus sign, as the standard library parses them.
use crate::ansi::{spec_shell_from_arg, Shell};
use crate::bytestr::{ascii_bytes, ascii_seq, bytes_eq, find_byte, split_bytes_once};
use crate::section::{spec_section_from_arg, Section};
use vstd::prelude::*;

verus! {

/// The byte between a key and its value.
pub const EQUALS: u8 = 61;

/// The optional sign in front of a decimal number.
pub const PLUS: u8 = 43;

/// The default prompt suffix.
pub const DOLLAR: u8 = 36;

/// A known key whose value could not be parsed.
#[derive(Clone, Copy, Debug, PartialEq, Eq, Structural)]
pub enum ArgError {
    /// The section name was neither of the known ones.
    BadSection,
    /// The job count was not a number that fits the machine word.
    BadJobCount,
    /// The last status was not a number that fits a byte.
    BadLastStatus,
    /// The shell name was not a known flavor.
    BadShell,
}

/// Every byte is a decimal digit.
pub open spec fn all_digits(s: Seq<u8>) -> bool {
    forall|i: int| 0 <= i < s.len() ==> 48 <= #[trigger] s[i] <= 57
}

/// The value of a digit string read in base ten.
pub open spec fn spec_digits_value(s: Seq<u8>) -> int
    decreases s.len(),
{
    if s.len() == 0 {
        0
    } else {
        spec_digits_value(s.drop_last()) * 10 + (s.last() - 48)
    }
}

/// The number a byte string denotes: an optional plus sign, then at least
/// one digit.
pub open spec fn spec_parse_uint(s: Seq<u8>) -> Option<int> {
    let digits = if s.len() > 0 && s[0] == PLUS {
        s.subrange(1, s.len() as int)
    } else {
        s
    };
    if digits.len() > 0 && all_digits(digits) {
        Some(spec_digits_value(digits))
    } else {
        None
    }
}

/// The number a byte string denotes, where it fits the machine word.
pub open spec fn spec_parse_usize(s: Seq<u8>) -> Option<usize> {
    match spec_parse_uint(s) {
        Some(v) => if v <= usize::MAX {
            Some(v as usize)
        } else {
            None
        },
        None => None,
    }
}

/// The number a byte string denotes, where it fits a byte.
pub open spec fn spec_parse_u8(s: Seq<u8>) -> Option<u8> {
    match spec_parse_uint(s) {
        Some(v) => if v <= u8::MAX {
            Some(v as u8)
        } else {
            None
        },
        None => None,
    }
}

/// The value of a digit string is never negative.
proof fn lemma_digits_value_nonneg(s: Seq<u8>)
    requires
        all_digits(s),
    ensures
        spec_digits_value(s) >= 0,
    decreases s.len(),
{
    if s.len() > 0 {
        assert(forall|i: int| 0 <= i < s.len() - 1 ==> s.drop_last()[i] == s[i]);
        lemma_digits_value_nonneg(s.drop_last());
        let v = spec_digits_value(s.drop_last());
        let d = s.last() - 48;
        assert(v * 10 + d >= 0) by (nonlinear_arith)
            requires
                v >= 0,
                d >= 0,
        ;
    }
}

/// Reading more digits can only grow the value.
proof fn lemma_digits_value_monotone(s: Seq<u8>, j: int, k: int)
    requires
        0 <= j <= k <= s.len(),
        all_digits(s),
    ensures
        spec_digits_value(s.take(j)) <= spec_digits_value(s.take(k)),
    decreases k - j,
{
    if j < k {
        lemma_digits_value_monotone(s, j, k - 1);
        assert(s.take(k).drop_last() =~= s.take(k - 1));
        assert(forall|i: int| 0 <= i < k ==> s.take(k)[i] == s[i]);
        assert(all_digits(s.take(k - 1))) by {
            assert(forall|i: int| 0 <= i < k - 1 ==> s.take(k - 1)[i] == s[i]);
        }
        lemma_digits_value_nonneg(s.take(k - 1));
        let v = spec_digits_value(s.take(k - 1));
        let d = s.take(k).last() - 48;
        assert(v * 10 + d >= v) by (nonlinear_arith)
            requires
                v >= 0,
                d >= 0,
        ;
    }
}

/// Read the digits of `s` from `start` on in base ten, or nothing where a
/// byte is no digit, no digits follow, or the value does not fit the
/// machine word.
fn parse_digits(s: &Vec<u8>, start: usize) -> (r: Option<usize>)
    requires
        start <= s@.len(),
    ensures
        ({
            let digits = s@.subrange(start as int, s@.len() as int);
            match r {
                Some(v) => digits.len() > 0 && all_digits(digits) && v == spec_digits_value(
                    digits,
                ),
                None => !(digits.len() > 0 && all_digits(digits) && spec_digits_value(digits)
                    <= usize::MAX),
            }
        }),
{
    let ghost digits = s@.subrange(start as int, s@.len() as int);
    if start >= s.len() {
        return None;
    }
    let mut acc: usize = 0;
    let mut i: usize = start;
    proof {
        assert(digits.take(0) =~= Seq::<u8>::empty());
    }
    while i < s.len()
        invariant
            start <= i <= s@.len(),
            digits == s@.subrange(start as int, s@.len() as int),
            all_digits(digits.take(i - start)),
            acc == spec_digits_value(digits.take(i - start)),
        decreases s@.len() - i,
    {
        let b = s[i];
        if b < 48 || b > 57 {
            proof {
                assert(digits[i - start] == s@[i as int]);
            }
            return None;
        }
        let d = (b - 48) as usize;
        proof {
            assert(digits.take(i + 1 - start).drop_last() =~= digits.take(i - start));
            assert(digits.take(i + 1 - start).last() == s@[i as int]);
        }
        let next = match acc.checked_mul(10) {
            Some(m) => m.checked_add(d),
            None => None,
        };
        match next {
            Some(n) => {
                acc = n;
            },
            None => {
                proof {
                    lemma_digits_value_nonneg(digits.take(i - start));
                    assert(spec_digits_value(digits.take(i + 1 - start)) > usize::MAX) by (
                    nonlinear_arith)
                        requires
                            spec_digits_value(digits.take(i + 1 - start)) == acc * 10 + d,
                            acc * 10 > usize::MAX || acc * 10 + d > usize::MAX,
                            acc >= 0,
                            d >= 0,
                    ;
                    if all_digits(digits) {
                        lemma_digits_value_monotone(
                            digits,
                            i + 1 - start,
                            digits.len() as int,
                        );
                        assert(digits.take(digits.len() as int) =~= digits);
                    }
                }
                return None;
            },
        }
        i = i + 1;
    }
    proof {
        assert(digits.take(digits.len() as int) =~= digits);
    }
    Some(acc)
}

/// Parse a decimal number that fits the machine word: an optional plus
/// sign, then at least one digit.
pub fn parse_usize(s: &Vec<u8>) -> (r: Option<usize>)
    ensures
        r == spec_parse_usize(s@),
{
    if s.len() > 0 && s[0] == PLUS {
        let r = parse_digits(s, 1);
        proof {
            assert(s@.subrange(1, s@.len() as int) == (if s@.len() > 0 && s@[0] == PLUS {
                s@.subrange(1, s@.len() as int)
            } else {
                s@
            }));
        }
        r
    } else {
        let r = parse_digits(s, 0);
        proof {
            assert(s@.subrange(0, s@.len() as int) =~= s@);
        }
        r
    }
}

/// Parse a decimal number that fits a byte: an optional plus sign, then at
/// least one digit.
pub fn parse_u8(s: &Vec<u8>) -> (r: Option<u8>)
    ensures
        r == spec_parse_u8(s@),
{
    proof {
        assert(usize::MAX >= 255);
        let digits = if s@.len() > 0 && s@[0] == PLUS {
            s@.subrange(1, s@.len() as int)
        } else {
            s@
        };
        if spec_parse_uint(s@) is Some {
            lemma_digits_value_nonneg(digits);
        }
    }
    match parse_usize(s) {
        Some(v) => if v <= 255 {
            Some(v as u8)
        } else {
            None
        },
        None => None,
    }
}

/// The mathematical model of a partially filled argument set.
pub struct SpecArgsBuilder {
    pub section: Option<Section>,
    pub job_count: Option<usize>,
    pub last_status: Option<u8>,
    pub shell: Option<Shell>,
    pub prompt_suffix: Option<Seq<u8>>,
}

/// The builder before any argument was read.
pub open spec fn spec_empty_builder() -> SpecArgsBuilder {
    SpecArgsBuilder {
        section: None,
        job_count: None,
        last_status: None,
        shell: None,
        prompt_suffix: None,
    }
}

/// What one `key=value` token does to the builder.  A token without an
/// equals sign and an unknown key change nothing; a known key with a
/// malformed value is an error.
pub open spec fn spec_builder_apply(b: SpecArgsBuilder, arg: Seq<u8>) -> Result<
    SpecArgsBuilder,
    ArgError,
> {
    match find_byte(arg, EQUALS) {
        None => Ok(b),
        Some(i) => {
            let key = arg.subrange(0, i);
            let value = arg.subrange(i + 1, arg.len() as int);
            if key == ascii_seq("print"@) {
                match spec_section_from_arg(value) {
                    Some(sec) => Ok(SpecArgsBuilder { section: Some(sec), ..b }),
                    None => Err(ArgError::BadSection),
                }
            } else if key == ascii_seq("jobs"@) {
                match spec_parse_usize(value) {
                    Some(n) => Ok(SpecArgsBuilder { job_count: Some(n), ..b }),
                    None => Err(ArgError::BadJobCount),
                }
            } else if key == ascii_seq("laststatus"@) {
                match spec_parse_u8(value) {
                    Some(n) => Ok(SpecArgsBuilder { last_status: Some(n), ..b }),
                    None => Err(ArgError::BadLastStatus),
                }
            } else if key == ascii_seq("shell"@) {
                match spec_shell_from_arg(value) {
                    Some(sh) => Ok(SpecArgsBuilder { shell: Some(sh), ..b }),
                    None => Err(ArgError::BadShell),
                }
            } else if key == ascii_seq("prompt_character"@) {
                Ok(SpecArgsBuilder { prompt_suffix: Some(value), ..b })
            } else {
                Ok(b)
            }
        },
    }
}

/// Reading the tokens left to right, stopping at the first malformed value.
pub open spec fn spec_parse_args(b: SpecArgsBuilder, args: Seq<Seq<u8>>) -> Result<
    SpecArgsBuilder,
    ArgError,
>
    decreases args.len(),
{
    if args.len() == 0 {
        Ok(b)
    } else {
        match spec_builder_apply(b, args[0]) {
            Ok(b2) => spec_parse_args(b2, args.subrange(1, args.len() as int)),
            Err(e) => Err(e),
        }
    }
}

/// The mathematical model of a complete argument set.
pub struct SpecArgs {
    pub section: Section,
    pub job_count: usize,
    pub last_status: u8,
    pub shell: Shell,
    pub prompt_suffix: Seq<u8>,
}

/// Fill what no argument set with its default: the whole prompt, no jobs, a
/// clean status, the default shell and a dollar suffix.
pub open spec fn spec_finish(b: SpecArgsBuilder) -> SpecArgs {
    SpecArgs {
        section: match b.section {
            Some(s) => s,
            None => Section::All,
        },
        job_count: match b.job_count {
            Some(j) => j,
            None => 0,
        },
        last_status: match b.last_status {
            Some(l) => l,
            None => 0,
        },
        shell: match b.shell {
            Some(s) => s,
            None => Shell::Zsh,
        },
        prompt_suffix: match b.prompt_suffix {
            Some(p) => p,
            None => seq![DOLLAR],
        },
    }
}

/// A partially filled argument set.
#[derive(Debug)]
struct ArgsBuilder {
    section: Option<Section>,
    job_count: Option<usize>,
    last_status: Option<u8>,
    shell: Option<Shell>,
    prompt_suffix: Option<Vec<u8>>,
}

impl ArgsBuilder {
    /// The mathematical model of this builder.
    spec fn model(&self) -> SpecArgsBuilder {
        SpecArgsBuilder {
            section: self.section,
            job_count: self.job_count,
            last_status: self.last_status,
            shell: self.shell,
            prompt_suffix: match self.prompt_suffix {
                Some(p) => Some(p@),
                None => None,
            },
        }
    }

    fn empty() -> (r: ArgsBuilder)
        ensures
            r.model() == spec_empty_builder(),
    {
        ArgsBuilder {
            section: None,
            job_count: None,
            last_status: None,
            shell: None,
            prompt_suffix: None,
        }
    }

    /// Read one `key=value` token into the builder.
    fn apply(self, arg: &Vec<u8>) -> (r: Result<ArgsBuilder, ArgError>)
        ensures
            r is Ok <==> spec_builder_apply(self.model(), arg@) is Ok,
            r matches Ok(b) ==> spec_builder_apply(self.model(), arg@) matches Ok(m) && b.model()
                == m,
            r matches Err(e) ==> spec_builder_apply(self.model(), arg@) matches Err(m) && e == m,
    {
        proof {
            reveal_strlit("print");
            reveal_strlit("jobs");
            reveal_strlit("laststatus");
            reveal_strlit("shell");
            reveal_strlit("prompt_character");
            assert(vstd::string::is_ascii("print"));
            assert(vstd::string::is_ascii("jobs"));
            assert(vstd::string::is_ascii("laststatus"));
            assert(vstd::string::is_ascii("shell"));
            assert(vstd::string::is_ascii("prompt_character"));
        }
        match split_bytes_once(arg, EQUALS) {
            None => Ok(self),
            Some((key, value)) => {
                if bytes_eq(&key, &ascii_bytes("print")) {
                    match Section::from_arg(&value) {
                        Some(sec) => Ok(ArgsBuilder { section: Some(sec), ..self }),
                        None => Err(ArgError::BadSection),
                    }
                } else if bytes_eq(&key, &ascii_bytes("jobs")) {
                    match parse_usize(&value) {
                        Some(n) => Ok(ArgsBuilder { job_count: Some(n), ..self }),
                        None => Err(ArgError::BadJobCount),
                    }
                } else if bytes_eq(&key, &ascii_bytes("laststatus")) {
                    match parse_u8(&value) {
                        Some(n) => Ok(ArgsBuilder { last_status: Some(n), ..self }),
                        None => Err(ArgError::BadLastStatus),
                    }
                } else if bytes_eq(&key, &ascii_bytes("shell")) {
                    match Shell::from_arg(&value) {
                        Some(sh) => Ok(ArgsBuilder { shell: Some(sh), ..self }),
                        None => Err(ArgError::BadShell),
                    }
                } else if bytes_eq(&key, &ascii_bytes("prompt_character")) {
                    Ok(ArgsBuilder { prompt_suffix: Some(value), ..self })
                } else {
                    Ok(self)
                }
            },
        }
    }

    /// Fill what no argument set with its default.
    fn finish(self) -> (r: Args)
        ensures
            r.model() == spec_finish(self.model()),
    {
        let prompt_suffix = match self.prompt_suffix {
            Some(p) => p,
            None => {
                let mut v: Vec<u8> = Vec::new();
                v.push(DOLLAR);
                proof {
                    assert(v@ =~= seq![DOLLAR]);
                }
                v
            },
        };
        Args {
            section: match self.section {
                Some(s) => s,
                None => Section::All,
            },
            job_count: match self.job_count {
                Some(j) => j,
                None => 0,
            },
            last_status: match self.last_status {
                Some(l) => l,
                None => 0,
            },
            shell: match self.shell {
                Some(s) => s,
                None => Shell::Zsh,
            },
            prompt_suffix,
        }
    }
}

/// The renderer's configuration, read from `key=value` tokens.
#[derive(Debug)]
pub struct Args {
    section: Section,
    job_count: usize,
    last_status: u8,
    shell: Shell,
    prompt_suffix: Vec<u8>,
}

impl Args {
    /// The mathematical model of this argument set.
    pub closed spec fn model(&self) -> SpecArgs {
        SpecArgs {
            section: self.section,
            job_count: self.job_count,
            last_status: self.last_status,
            shell: self.shell,
            prompt_suffix: self.prompt_suffix@,
        }
    }

    /// Read an argument set from raw tokens, stopping at the first
    /// malformed value of a known key.
    pub fn from_args(args: &Vec<Vec<u8>>) -> (r: Result<Args, ArgError>)
        ensures
            ({
                let parsed = spec_parse_args(spec_empty_builder(), args.deep_view());
                &&& (r is Ok <==> parsed is Ok)
                &&& (r matches Ok(a) ==> parsed matches Ok(b) && a.model() == spec_finish(b))
                &&& (r matches Err(e) ==> parsed matches Err(m) && e == m)
            }),
    {
        let ghost all = args.deep_view();
        let mut builder = ArgsBuilder::empty();
        let mut i: usize = 0;
        proof {
            assert(all.subrange(0, all.len() as int) =~= all);
        }
        while i < args.len()
            invariant
                i <= args@.len(),
                all == args.deep_view(),
                all.len() == args@.len(),
                spec_parse_args(spec_empty_builder(), all) == spec_parse_args(
                    builder.model(),
                    all.subrange(i as int, all.len() as int),
                ),
            decreases args@.len() - i,
        {
            let ghost rest = all.subrange(i as int, all.len() as int);
            proof {
                assert(rest[0] == all[i as int]);
                assert(all[i as int] == args@[i as int]@);
                assert(rest.subrange(1, rest.len() as int) =~= all.subrange(
                    i + 1,
                    all.len() as int,
                ));
            }
            builder = match builder.apply(&args[i]) {
                Ok(b) => b,
                Err(e) => {
                    return Err(e);
                },
            };
            i = i + 1;
        }
        proof {
            assert(all.subrange(all.len() as int, all.len() as int) =~= Seq::<Seq<u8>>::empty());
        }
        Ok(builder.finish())
    }

    /// Which section to render.
    pub fn section(&self) -> (r: Section)
        ensures
            r == self.model().section,
    {
        self.section
    }

    /// How many background jobs the shell reported.
    pub fn job_count(&self) -> (r: usize)
        ensures
            r == self.model().job_count,
    {
        self.job_count
    }

    /// The last command's exit status.
    pub fn last_status(&self) -> (r: u8)
        ensures
            r == self.model().last_status,
    {
        self.last_status
    }

    /// The shell flavor to render for.
    pub fn shell(&self) -> (r: Shell)
        ensures
            r == self.model().shell,
    {
        self.shell
    }

    /// The configured prompt suffix.
    pub fn prompt_suffix(&self) -> (r: &Vec<u8>)
        ensures
            r@ == self.model().prompt_suffix,
    {
        &self.prompt_suffix
    }
}

} // verus!
