//! Unstable engine options: parsing one `-Z` argument into a typed option,
//! and folding a list of parsed arguments into the option set. Search
//! paths are kept as plain text here; the surrounding driver turns them
//! into paths.

use vstd::prelude::*;
use vstd::string::{StrSliceExecFns, StringExecFns};

verus! {

/// One parsed `-Z` argument. Each variant corresponds to a field of
/// `UnstableOptions`, except `Help`, which the surrounding driver answers
/// by printing the help text and exiting.
#[derive(Debug)]
pub enum UnstableArg {
    /// Keep compiling even when severe errors occur.
    ContinueOnErrors,
    /// List all unstable options.
    Help,
    /// Include after this many crossrefs.
    MinCrossrefs(i32),
    /// Change the default paper size.
    PaperSize(String),
    /// Also look in this directory for files.
    SearchPath(String),
    /// Enable shell escapes.
    ShellEscapeEnabled,
    /// Working directory for shell escapes; implies enabling them.
    ShellEscapeCwd(String),
}

/// The collected unstable options.
#[derive(Debug)]
pub struct UnstableOptions {
    /// Keep compiling even when severe errors occur.
    pub continue_on_errors: bool,
    /// The chosen paper size, if any.
    pub paper_size: Option<String>,
    /// Whether shell escapes are enabled.
    pub shell_escape: bool,
    /// The crossref threshold, if any.
    pub min_crossrefs: Option<i32>,
    /// Extra search directories, in the order they were given.
    pub extra_search_paths: Vec<String>,
    /// The working directory for shell escapes, if any.
    pub shell_escape_cwd: Option<String>,
}

impl Default for UnstableOptions {
    /// No option chosen: every flag off, every value absent.
    fn default() -> (r: UnstableOptions)
        ensures
            !r.continue_on_errors,
            r.paper_size is None,
            !r.shell_escape,
            r.min_crossrefs is None,
            r.extra_search_paths@.len() == 0,
            r.shell_escape_cwd is None,
    {
        UnstableOptions {
            continue_on_errors: false,
            paper_size: None,
            shell_escape: false,
            min_crossrefs: None,
            extra_search_paths: Vec::new(),
            shell_escape_cwd: None,
        }
    }
}

/// The position of the first `=` in `sq`, or -1 when there is none.
pub open spec fn eq_index(sq: Seq<char>) -> int
    decreases sq.len(),
{
    if sq.len() == 0 {
        -1
    } else if sq[0] == '=' {
        0
    } else {
        let r = eq_index(sq.drop_first());
        if r < 0 {
            -1
        } else {
            r + 1
        }
    }
}

/// The name part of a `-Z` argument: everything before the first `=`.
pub open spec fn arg_part(sq: Seq<char>) -> Seq<char> {
    if eq_index(sq) < 0 {
        sq
    } else {
        sq.take(eq_index(sq))
    }
}

/// The value part of a `-Z` argument: everything after the first `=`, or
/// nothing when there is no `=`.
pub open spec fn val_part(sq: Seq<char>) -> Option<Seq<char>> {
    if eq_index(sq) < 0 {
        None
    } else {
        Some(sq.skip(eq_index(sq) + 1))
    }
}

proof fn lemma_eq_index_found(sq: Seq<char>, i: int)
    requires
        0 <= i < sq.len(),
        sq[i] == '=',
        forall|k: int| 0 <= k < i ==> sq[k] != '=',
    ensures
        eq_index(sq) == i,
    decreases i,
{
    if i > 0 {
        lemma_eq_index_found(sq.drop_first(), i - 1);
    }
}

proof fn lemma_eq_index_none(sq: Seq<char>)
    requires
        forall|k: int| 0 <= k < sq.len() ==> sq[k] != '=',
    ensures
        eq_index(sq) == -1,
    decreases sq.len(),
{
    if sq.len() > 0 {
        lemma_eq_index_none(sq.drop_first());
    }
}

/// Whether `c` is an ASCII decimal digit.
pub open spec fn is_digit(c: char) -> bool {
    48 <= c as u32 <= 57
}

/// The value of a digit string, most significant digit first.
pub open spec fn udec_val(sq: Seq<char>) -> int
    decreases sq.len(),
{
    if sq.len() == 0 {
        0
    } else {
        udec_val(sq.drop_last()) * 10 + (sq.last() as u32 - 48)
    }
}

/// The position of the first non-digit in `sq`, or -1 when all are digits.
pub open spec fn first_nondigit(sq: Seq<char>) -> int
    decreases sq.len(),
{
    if sq.len() == 0 {
        -1
    } else if !is_digit(sq[0]) {
        0
    } else {
        let r = first_nondigit(sq.drop_first());
        if r < 0 {
            -1
        } else {
            r + 1
        }
    }
}

/// Whether the text starts with a sign character.
pub open spec fn has_sign(sq: Seq<char>) -> bool {
    sq.len() > 0 && (sq[0] == '+' || sq[0] == '-')
}

/// The digits of the text: everything after an optional leading sign.
pub open spec fn digits_part(sq: Seq<char>) -> Seq<char> {
    if has_sign(sq) {
        sq.skip(1)
    } else {
        sq
    }
}

/// The largest magnitude an `i32` of this sign can carry.
pub open spec fn sign_bound(sq: Seq<char>) -> int {
    if sq.len() > 0 && sq[0] == '-' {
        2147483648
    } else {
        2147483647
    }
}

/// Whether the text is a valid decimal `i32`: an optional sign, at least
/// one digit, nothing else, and a magnitude within range.
pub open spec fn valid_i32_text(sq: Seq<char>) -> bool {
    &&& sq.len() > 0
    &&& digits_part(sq).len() > 0
    &&& first_nondigit(digits_part(sq)) < 0
    &&& udec_val(digits_part(sq)) <= sign_bound(sq)
}

/// The value a valid decimal `i32` text denotes.
pub open spec fn i32_text_val(sq: Seq<char>) -> int {
    if sq.len() > 0 && sq[0] == '-' {
        -udec_val(digits_part(sq))
    } else {
        udec_val(digits_part(sq))
    }
}

/// The message for a text that is not a valid decimal `i32`, mirroring a
/// left-to-right scan: an empty text, then the first offending character
/// unless the digits before it already overflowed, then the overflow.
pub open spec fn parse_err_text(sq: Seq<char>) -> Seq<char> {
    if sq.len() == 0 {
        ("cannot parse integer from empty string")@
    } else {
        let d = digits_part(sq);
        let p = first_nondigit(d);
        if d.len() == 0 {
            ("invalid digit found in string")@
        } else if p >= 0 && udec_val(d.take(p)) <= sign_bound(sq) {
            ("invalid digit found in string")@
        } else if sq[0] == '-' {
            ("number too small to fit in target type")@
        } else {
            ("number too large to fit in target type")@
        }
    }
}

proof fn lemma_first_nondigit_found(sq: Seq<char>, i: int)
    requires
        0 <= i < sq.len(),
        !is_digit(sq[i]),
        forall|k: int| 0 <= k < i ==> is_digit(#[trigger] sq[k]),
    ensures
        first_nondigit(sq) == i,
    decreases i,
{
    if i > 0 {
        lemma_first_nondigit_found(sq.drop_first(), i - 1);
    }
}

proof fn lemma_first_nondigit_none(sq: Seq<char>)
    requires
        forall|k: int| 0 <= k < sq.len() ==> is_digit(#[trigger] sq[k]),
    ensures
        first_nondigit(sq) == -1,
    decreases sq.len(),
{
    if sq.len() > 0 {
        lemma_first_nondigit_none(sq.drop_first());
    }
}

/// Where the first non-digit of `sq` stands, everything before it is a
/// digit and it is none; where there is none, everything is a digit.
proof fn lemma_first_nondigit_spec(sq: Seq<char>)
    ensures
        first_nondigit(sq) < 0 ==> forall|k: int| 0 <= k < sq.len() ==> is_digit(
            #[trigger] sq[k],
        ),
        first_nondigit(sq) >= 0 ==> first_nondigit(sq) < sq.len() && !is_digit(
            sq[first_nondigit(sq)],
        ) && (forall|k: int| 0 <= k < first_nondigit(sq) ==> is_digit(#[trigger] sq[k])),
    decreases sq.len(),
{
    if sq.len() > 0 && is_digit(sq[0]) {
        let t = sq.drop_first();
        lemma_first_nondigit_spec(t);
        let r = first_nondigit(t);
        if r < 0 {
            assert forall|k: int| 0 <= k < sq.len() implies is_digit(#[trigger] sq[k]) by {
                if k > 0 {
                    assert(sq[k] == t[k - 1]);
                }
            }
        } else {
            assert(sq[r + 1] == t[r]);
            assert forall|k: int| 0 <= k < r + 1 implies is_digit(#[trigger] sq[k]) by {
                if k > 0 {
                    assert(sq[k] == t[k - 1]);
                }
            }
        }
    }
}

/// Over a digit prefix, the accumulated value is never negative.
proof fn lemma_udec_nonneg(sq: Seq<char>, j: int)
    requires
        0 <= j <= sq.len(),
        forall|t: int| 0 <= t < j ==> is_digit(#[trigger] sq[t]),
    ensures
        0 <= udec_val(sq.take(j)),
    decreases j,
{
    if j > 0 {
        lemma_udec_nonneg(sq, j - 1);
        let a = udec_val(sq.take(j - 1));
        assert(sq.take(j).drop_last() =~= sq.take(j - 1));
        assert(sq.take(j).last() == sq[j - 1]);
        assert(a * 10 >= 0) by (nonlinear_arith)
            requires
                a >= 0,
        ;
    }
}

/// Over a digit prefix, the accumulated value never decreases.
proof fn lemma_udec_mono(sq: Seq<char>, j: int, k: int)
    requires
        0 <= j <= k <= sq.len(),
        forall|t: int| 0 <= t < k ==> is_digit(#[trigger] sq[t]),
    ensures
        0 <= udec_val(sq.take(j)),
        udec_val(sq.take(j)) <= udec_val(sq.take(k)),
    decreases k - j,
{
    lemma_udec_nonneg(sq, j);
    if j < k {
        lemma_udec_mono(sq, j, k - 1);
        let a = udec_val(sq.take(k - 1));
        assert(sq.take(k).drop_last() =~= sq.take(k - 1));
        assert(sq.take(k).last() == sq[k - 1]);
        assert(a * 10 >= a) by (nonlinear_arith)
            requires
                a >= 0,
        ;
    }
}

/// Parses a decimal `i32` as a left-to-right scan would: the result is the
/// denoted value exactly when the text is a well-formed in-range decimal,
/// and otherwise the message names the first failure the scan meets.
fn parse_i32(v: &str) -> (r: Result<i32, String>)
    ensures
        match r {
            Ok(num) => valid_i32_text(v@) && num == i32_text_val(v@),
            Err(e) => !valid_i32_text(v@) && e@ == parse_err_text(v@),
        },
{
    let n: usize = v.unicode_len();
    if n == 0 {
        return Err(String::from_str("cannot parse integer from empty string"));
    }
    let first: char = v.get_char(0);
    let neg: bool = first == '-';
    let signed: bool = first == '-' || first == '+';
    let start: usize = if signed {
        1
    } else {
        0
    };
    let ghost d = digits_part(v@);
    proof {
        if signed {
            assert(d =~= v@.skip(1));
        } else {
            assert(d =~= v@);
        }
    }
    if start == n {
        proof {
            assert(d.len() == 0);
        }
        return Err(String::from_str("invalid digit found in string"));
    }
    let bound: i64 = if neg {
        2147483648
    } else {
        2147483647
    };
    let mut acc: i64 = 0;
    let mut i: usize = start;
    while i < n
        invariant
            start <= i <= n,
            n == v@.len(),
            start == (if has_sign(v@) {
                1int
            } else {
                0int
            }),
            d == digits_part(v@),
            d.len() == n - start,
            forall|k: int| 0 <= k < i - start ==> is_digit(#[trigger] d[k]),
            acc == udec_val(d.take(i - start)),
            0 <= acc <= bound,
            bound == sign_bound(v@),
            neg == (v@.len() > 0 && v@[0] == '-'),
        decreases n - i,
    {
        let c: char = v.get_char(i);
        let u: u32 = c as u32;
        proof {
            assert(d[i - start] == v@[i as int]);
        }
        if !(48 <= u && u <= 57) {
            proof {
                lemma_first_nondigit_found(d, i - start);
            }
            return Err(String::from_str("invalid digit found in string"));
        }
        acc = acc * 10 + ((u - 48) as i64);
        i = i + 1;
        proof {
            assert(d.take(i - start).drop_last() =~= d.take(i - start - 1));
            assert(d.take(i - start).last() == d[i - start - 1]);
        }
        if acc > bound {
            proof {
                lemma_first_nondigit_spec(d);
                let p = first_nondigit(d);
                if p >= 0 {
                    assert(p >= i - start);
                    lemma_udec_mono(d, i - start, p);
                } else {
                    lemma_udec_mono(d, i - start, d.len() as int);
                    assert(d.take(d.len() as int) =~= d);
                }
            }
            if neg {
                return Err(String::from_str("number too small to fit in target type"));
            } else {
                return Err(String::from_str("number too large to fit in target type"));
            }
        }
    }
    proof {
        lemma_first_nondigit_none(d);
        assert(d.take(d.len() as int) =~= d);
    }
    let result: i32 = if neg {
        (-acc) as i32
    } else {
        acc as i32
    };
    Ok(result)
}

/// Whether two strings hold the same characters.
fn str_eq(a: &str, b: &str) -> (r: bool)
    ensures
        r == (a@ == b@),
{
    let n: usize = a.unicode_len();
    let m: usize = b.unicode_len();
    if n != m {
        return false;
    }
    let mut i: usize = 0;
    while i < n
        invariant
            i <= n,
            n == a@.len(),
            n == b@.len(),
            forall|k: int| 0 <= k < i ==> a@[k] == b@[k],
        decreases n - i,
    {
        if a.get_char(i) != b.get_char(i) {
            return false;
        }
        i = i + 1;
    }
    proof {
        assert(a@ =~= b@);
    }
    true
}

/// The message for a `-Z` option that needs a value and got none.
pub open spec fn err_requires_value(arg: Seq<char>, vname: Seq<char>) -> Seq<char> {
    ("'-Z ")@ + arg + ("=<")@ + vname + (">' requires a value but none was supplied")@
}

/// The message for a `-Z` flag that takes no value and got one.
pub open spec fn err_no_value(arg: Seq<char>, value: Seq<char>) -> Seq<char> {
    ("'-Z ")@ + arg + ("=")@ + value + ("', was supplied but '-Z ")@ + arg
        + ("' does not take a value.")@
}

/// The message for an unknown `-Z` option.
pub open spec fn err_unknown(arg: Seq<char>) -> Seq<char> {
    ("Unknown unstable option '")@ + arg + ("'")@
}

fn requires_value_msg(arg: &str, vname: &str) -> (r: String)
    ensures
        r@ == err_requires_value(arg@, vname@),
{
    let mut m = String::from_str("'-Z ");
    m.append(arg);
    m.append("=<");
    m.append(vname);
    m.append(">' requires a value but none was supplied");
    m
}

fn no_value_msg(arg: &str, value: &str) -> (r: String)
    ensures
        r@ == err_no_value(arg@, value@),
{
    let mut m = String::from_str("'-Z ");
    m.append(arg);
    m.append("=");
    m.append(value);
    m.append("', was supplied but '-Z ");
    m.append(arg);
    m.append("' does not take a value.");
    m
}

fn unknown_msg(arg: &str) -> (r: String)
    ensures
        r@ == err_unknown(arg@),
{
    let mut m = String::from_str("Unknown unstable option '");
    m.append(arg);
    m.append("'");
    m
}

impl UnstableArg {
    /// Parses the text given to one `-Z` flag: the option name, and after
    /// the first `=` its value. Flags that need a value reject its absence;
    /// `shell-escape` rejects a value; `help` and `continue-on-errors`
    /// silently ignore one; anything unknown is rejected by name.
    pub fn from_str(s: &str) -> (r: Result<UnstableArg, String>)
        ensures
            ({
                let a = arg_part(s@);
                let v = val_part(s@);
                if a == ("help")@ {
                    r is Ok && (r matches Ok(x) ==> x is Help)
                } else if a == ("continue-on-errors")@ {
                    r is Ok && (r matches Ok(x) ==> x is ContinueOnErrors)
                } else if a == ("min-crossrefs")@ {
                    match v {
                        None => r matches Err(e) && e@ == err_requires_value(a, ("num")@),
                        Some(vs) => {
                            if valid_i32_text(vs) {
                                r matches Ok(x) && (x matches UnstableArg::MinCrossrefs(num)
                                    && num == i32_text_val(vs))
                            } else {
                                r matches Err(e) && e@ == ("-Z min-crossrefs: ")@ + parse_err_text(
                                    vs,
                                )
                            }
                        },
                    }
                } else if a == ("paper-size")@ {
                    match v {
                        None => r matches Err(e) && e@ == err_requires_value(a, ("spec")@),
                        Some(vs) => r matches Ok(x) && (x matches UnstableArg::PaperSize(p)
                            && p@ == vs),
                    }
                } else if a == ("search-path")@ {
                    match v {
                        None => r matches Err(e) && e@ == err_requires_value(a, ("path")@),
                        Some(vs) => r matches Ok(x) && (x matches UnstableArg::SearchPath(p)
                            && p@ == vs),
                    }
                } else if a == ("shell-escape")@ {
                    match v {
                        None => r is Ok && (r matches Ok(x) ==> x is ShellEscapeEnabled),
                        Some(vs) => r matches Err(e) && e@ == err_no_value(a, vs),
                    }
                } else if a == ("shell-escape-cwd")@ {
                    match v {
                        None => r matches Err(e) && e@ == err_requires_value(a, ("path")@),
                        Some(vs) => r matches Ok(x) && (x matches UnstableArg::ShellEscapeCwd(p)
                            && p@ == vs),
                    }
                } else {
                    r matches Err(e) && e@ == err_unknown(a)
                }
            }),
    {
        let n: usize = s.unicode_len();
        let mut eq: Option<usize> = None;
        let mut i: usize = 0;
        while i < n
            invariant_except_break
                i <= n,
                n == s@.len(),
                eq is None,
                forall|k: int| 0 <= k < i ==> s@[k] != '=',
            ensures
                n == s@.len(),
                match eq {
                    Some(p) => p < n && s@[p as int] == '=' && (forall|k: int|
                        0 <= k < p ==> s@[k] != '='),
                    None => forall|k: int| 0 <= k < n ==> s@[k] != '=',
                },
            decreases n - i,
        {
            if s.get_char(i) == '=' {
                eq = Some(i);
                break ;
            }
            i = i + 1;
        }
        proof {
            match eq {
                Some(p) => lemma_eq_index_found(s@, p as int),
                None => lemma_eq_index_none(s@),
            }
        }
        let arg: &str = match eq {
            Some(p) => s.substring_char(0, p),
            None => s,
        };
        let value: Option<&str> = match eq {
            Some(p) => Some(s.substring_char(p + 1, n)),
            None => None,
        };
        proof {
            assert(arg@ =~= arg_part(s@));
            if eq is Some {
                assert(val_part(s@) matches Some(vs) && value matches Some(vv) && vv@ =~= vs);
            }
        }
        if str_eq(arg, "help") {
            return Ok(UnstableArg::Help);
        }
        if str_eq(arg, "continue-on-errors") {
            return Ok(UnstableArg::ContinueOnErrors);
        }
        if str_eq(arg, "min-crossrefs") {
            return match value {
                None => Err(requires_value_msg(arg, "num")),
                Some(vs) => match parse_i32(vs) {
                    Ok(num) => Ok(UnstableArg::MinCrossrefs(num)),
                    Err(e) => {
                        let mut m = String::from_str("-Z min-crossrefs: ");
                        m.append(e.as_str());
                        Err(m)
                    },
                },
            };
        }
        if str_eq(arg, "paper-size") {
            return match value {
                None => Err(requires_value_msg(arg, "spec")),
                Some(vs) => Ok(UnstableArg::PaperSize(String::from_str(vs))),
            };
        }
        if str_eq(arg, "search-path") {
            return match value {
                None => Err(requires_value_msg(arg, "path")),
                Some(vs) => Ok(UnstableArg::SearchPath(String::from_str(vs))),
            };
        }
        if str_eq(arg, "shell-escape") {
            return match value {
                None => Ok(UnstableArg::ShellEscapeEnabled),
                Some(vs) => Err(no_value_msg(arg, vs)),
            };
        }
        if str_eq(arg, "shell-escape-cwd") {
            return match value {
                None => Err(requires_value_msg(arg, "path")),
                Some(vs) => Ok(UnstableArg::ShellEscapeCwd(String::from_str(vs))),
            };
        }
        Err(unknown_msg(arg))
    }
}

/// Whether any argument so far asked to continue on errors.
pub open spec fn spec_continue(args: Seq<UnstableArg>) -> bool
    decreases args.len(),
{
    if args.len() == 0 {
        false
    } else {
        spec_continue(args.drop_last()) || args.last() is ContinueOnErrors
    }
}

/// Whether any argument so far enabled shell escapes, directly or by
/// choosing a working directory for them.
pub open spec fn spec_shell_escape(args: Seq<UnstableArg>) -> bool
    decreases args.len(),
{
    if args.len() == 0 {
        false
    } else {
        spec_shell_escape(args.drop_last()) || args.last() is ShellEscapeEnabled || args.last()
            is ShellEscapeCwd
    }
}

/// The last crossref threshold given, if any.
pub open spec fn spec_min_crossrefs(args: Seq<UnstableArg>) -> Option<i32>
    decreases args.len(),
{
    if args.len() == 0 {
        None
    } else {
        match args.last() {
            UnstableArg::MinCrossrefs(n) => Some(n),
            _ => spec_min_crossrefs(args.drop_last()),
        }
    }
}

/// The last paper size given, if any.
pub open spec fn spec_paper_size(args: Seq<UnstableArg>) -> Option<Seq<char>>
    decreases args.len(),
{
    if args.len() == 0 {
        None
    } else {
        match args.last() {
            UnstableArg::PaperSize(p) => Some(p@),
            _ => spec_paper_size(args.drop_last()),
        }
    }
}

/// The last shell-escape working directory given, if any.
pub open spec fn spec_shell_escape_cwd(args: Seq<UnstableArg>) -> Option<Seq<char>>
    decreases args.len(),
{
    if args.len() == 0 {
        None
    } else {
        match args.last() {
            UnstableArg::ShellEscapeCwd(p) => Some(p@),
            _ => spec_shell_escape_cwd(args.drop_last()),
        }
    }
}

/// The search paths given, in order.
pub open spec fn spec_search_paths(args: Seq<UnstableArg>) -> Seq<Seq<char>>
    decreases args.len(),
{
    if args.len() == 0 {
        Seq::empty()
    } else {
        spec_search_paths(args.drop_last()) + (match args.last() {
            UnstableArg::SearchPath(p) => seq![p@],
            _ => Seq::<Seq<char>>::empty(),
        })
    }
}

impl UnstableOptions {
    /// Folds parsed `-Z` arguments into the option set: flags accumulate,
    /// valued options keep their last value, search paths keep their order.
    /// `Help` is answered by the surrounding driver before this runs.
    pub fn from_unstable_args(uargs: Vec<UnstableArg>) -> (r: UnstableOptions)
        requires
            forall|j: int| 0 <= j < uargs@.len() ==> !(#[trigger] uargs@[j] is Help),
        ensures
            r.continue_on_errors == spec_continue(uargs@),
            r.shell_escape == spec_shell_escape(uargs@),
            r.min_crossrefs == spec_min_crossrefs(uargs@),
            (match r.paper_size {
                Some(p) => spec_paper_size(uargs@) == Some(p@),
                None => spec_paper_size(uargs@) is None,
            }),
            (match r.shell_escape_cwd {
                Some(p) => spec_shell_escape_cwd(uargs@) == Some(p@),
                None => spec_shell_escape_cwd(uargs@) is None,
            }),
            r.extra_search_paths@.map_values(|p: String| p@) == spec_search_paths(uargs@),
    {
        let mut opts = UnstableOptions::default();
        proof {
            assert(uargs@.subrange(0, 0) =~= Seq::<UnstableArg>::empty());
            assert(opts.extra_search_paths@.map_values(|p: String| p@) =~= spec_search_paths(
                uargs@.subrange(0, 0),
            ));
        }
        let mut i: usize = 0;
        while i < uargs.len()
            invariant
                i <= uargs@.len(),
                forall|j: int| 0 <= j < uargs@.len() ==> !(#[trigger] uargs@[j] is Help),
                opts.continue_on_errors == spec_continue(uargs@.subrange(0, i as int)),
                opts.shell_escape == spec_shell_escape(uargs@.subrange(0, i as int)),
                opts.min_crossrefs == spec_min_crossrefs(uargs@.subrange(0, i as int)),
                (match opts.paper_size {
                    Some(p) => spec_paper_size(uargs@.subrange(0, i as int)) == Some(p@),
                    None => spec_paper_size(uargs@.subrange(0, i as int)) is None,
                }),
                (match opts.shell_escape_cwd {
                    Some(p) => spec_shell_escape_cwd(uargs@.subrange(0, i as int)) == Some(p@),
                    None => spec_shell_escape_cwd(uargs@.subrange(0, i as int)) is None,
                }),
                opts.extra_search_paths@.map_values(|p: String| p@) == spec_search_paths(
                    uargs@.subrange(0, i as int),
                ),
            decreases uargs@.len() - i,
        {
            let ghost pre = uargs@.subrange(0, i as int);
            let ghost post = uargs@.subrange(0, i + 1);
            proof {
                assert(post.drop_last() =~= pre);
                assert(post.last() == uargs@[i as int]);
            }
            match &uargs[i] {
                UnstableArg::Help => {
                    proof {
                        assert(false);
                    }
                },
                UnstableArg::ContinueOnErrors => {
                    opts.continue_on_errors = true;
                },
                UnstableArg::MinCrossrefs(num) => {
                    opts.min_crossrefs = Some(*num);
                },
                UnstableArg::PaperSize(size) => {
                    opts.paper_size = Some(size.clone());
                },
                UnstableArg::ShellEscapeEnabled => {
                    opts.shell_escape = true;
                },
                UnstableArg::SearchPath(p) => {
                    opts.extra_search_paths.push(p.clone());
                    proof {
                        assert(opts.extra_search_paths@.map_values(|q: String| q@)
                            =~= spec_search_paths(pre) + seq![uargs@[i as int]->SearchPath_0@]);
                    }
                },
                UnstableArg::ShellEscapeCwd(p) => {
                    opts.shell_escape_cwd = Some(p.clone());
                    opts.shell_escape = true;
                },
            }
            i = i + 1;
        }
        proof {
            assert(uargs@.subrange(0, uargs@.len() as int) =~= uargs@);
        }
        opts
    }
}

} // verus!
