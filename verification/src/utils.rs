//! Shared error type, output-format selection, and configuration parsing.

use vstd::prelude::*;

use crate::queue::{insert_step, lemma_populated_snoc, populated, Queue, QueueItem};
use crate::worker::Operation;

verus! {

/// Statistics output formats.
#[derive(Clone, Copy, Debug, PartialEq, Eq, Structural)]
pub enum OutputFormat {
    /// Prose, for humans watching the console.
    Human,
    /// Prose plus a per-worker breakdown.
    HumanVerbose,
    /// Space-separated fields, for machine consumption.
    Tabular,
}

/// The error type shared by every fallible operation of the crate.
#[derive(Debug, PartialEq)]
pub struct ChumError {
    msg: String,
}

impl View for ChumError {
    type V = Seq<char>;

    closed spec fn view(&self) -> Seq<char> {
        self.msg@
    }
}

impl ChumError {
    pub fn new(msg: &str) -> (e: Self)
        ensures
            e@ == msg@,
    {
        ChumError { msg: msg.to_owned() }
    }

    /// The error text, for callers that want to report it.
    pub fn msg(&self) -> (m: &str)
        ensures
            m@ == self@,
    {
        self.msg.as_str()
    }
}

impl OutputFormat {
    /// Selects an output format from its one-letter command-line token.
    pub fn from_str(s: &str) -> (r: Result<OutputFormat, ChumError>)
        ensures
            s@ == "h"@ ==> r == Ok::<OutputFormat, ChumError>(OutputFormat::Human),
            s@ == "v"@ ==> r == Ok::<OutputFormat, ChumError>(OutputFormat::HumanVerbose),
            s@ == "t"@ ==> r == Ok::<OutputFormat, ChumError>(OutputFormat::Tabular),
            s@ != "h"@ && s@ != "v"@ && s@ != "t"@ ==> (r matches Err(e) && e@
                == "invalid output format"@),
    {
        proof {
            reveal_strlit("h");
            reveal_strlit("v");
            reveal_strlit("t");
            assert("h"@[0] == 'h');
            assert("v"@[0] == 'v');
            assert("t"@[0] == 't');
            assert("h"@ != "v"@);
            assert("h"@ != "t"@);
            assert("v"@ != "t"@);
        }
        if streq(s, "h") {
            Ok(OutputFormat::Human)
        } else if streq(s, "v") {
            Ok(OutputFormat::HumanVerbose)
        } else if streq(s, "t") {
            Ok(OutputFormat::Tabular)
        } else {
            Err(ChumError::new("invalid output format"))
        }
    }
}

/// Character-by-character equality of two string slices.
pub fn streq(a: &str, b: &str) -> (r: bool)
    ensures
        r == (a@ == b@),
{
    let an = a.unicode_len();
    let bn = b.unicode_len();
    if an != bn {
        proof {
            assert(a@ != b@);
        }
        return false;
    }
    let mut i: usize = 0;
    while i < an
        invariant
            i <= an,
            an == a@.len(),
            an == b@.len(),
            forall|j: int| 0 <= j < i ==> a@[j] == b@[j],
        decreases an - i,
    {
        if a.get_char(i) != b.get_char(i) {
            proof {
                assert(a@[i as int] != b@[i as int]);
            }
            return false;
        }
        i += 1;
    }
    proof {
        assert(a@ =~= b@);
    }
    true
}

// ---------------------------------------------------------------------------
// Human-readable byte counts.
//
// A size token is `<integer><unit>` with unit in {k, m, g, t} (either case),
// or the literal `0`. Any other form is a configuration error.
// ---------------------------------------------------------------------------

/// Whether `c` is a decimal digit.
pub open spec fn is_dec_digit(c: char) -> bool {
    '0' <= c && c <= '9'
}

/// The value of one decimal digit character.
pub open spec fn digit_val(c: char) -> nat {
    ((c as int) - ('0' as int)) as nat
}

/// The value of a string of decimal digits, most significant first.
pub open spec fn dec_val(s: Seq<char>) -> nat
    decreases s.len(),
{
    if s.len() == 0 {
        0
    } else {
        dec_val(s.drop_last()) * 10 + digit_val(s.last())
    }
}

/// Whether every character of `s` is a decimal digit.
pub open spec fn all_digits(s: Seq<char>) -> bool {
    forall|i: int| 0 <= i < s.len() ==> is_dec_digit(s[i])
}

/// The byte multiplier of a unit suffix, or zero for an unrecognized one.
pub open spec fn unit_mult(c: char) -> nat {
    if c == 'k' || c == 'K' {
        1024
    } else if c == 'm' || c == 'M' {
        1048576
    } else if c == 'g' || c == 'G' {
        1073741824
    } else if c == 't' || c == 'T' {
        1099511627776
    } else {
        0
    }
}

/// Whether `s` is a digit string followed by a recognized unit suffix.
pub open spec fn human_form(s: Seq<char>) -> bool {
    &&& s.len() >= 2
    &&& all_digits(s.take(s.len() - 1))
    &&& unit_mult(s[s.len() - 1]) > 0
}

/// The byte count that a well-formed size token denotes.
pub open spec fn human_val(s: Seq<char>) -> nat {
    dec_val(s.take(s.len() - 1)) * unit_mult(s[s.len() - 1])
}

/// Whether `s` is the literal `0`.
pub open spec fn is_zero_str(s: Seq<char>) -> bool {
    s.len() == 1 && s[0] == '0'
}

/// Whether `parse_human` accepts `s`.
pub open spec fn human_ok(s: Seq<char>) -> bool {
    is_zero_str(s) || (human_form(s) && human_val(s) <= u64::MAX)
}

/// The byte count that `parse_human` returns on an accepted token.
pub open spec fn human_result(s: Seq<char>) -> nat {
    if is_zero_str(s) {
        0
    } else {
        human_val(s)
    }
}

proof fn lemma_dec_val_step(s: Seq<char>, i: int)
    requires
        0 <= i < s.len(),
    ensures
        dec_val(s.take(i + 1)) == dec_val(s.take(i)) * 10 + digit_val(s[i]),
{
    assert(s.take(i + 1).drop_last() =~= s.take(i));
    assert(s.take(i + 1).last() == s[i]);
}

fn unit_mult_exec(c: char) -> (m: u64)
    ensures
        m as nat == unit_mult(c),
{
    if c == 'k' || c == 'K' {
        1024
    } else if c == 'm' || c == 'M' {
        1048576
    } else if c == 'g' || c == 'G' {
        1073741824
    } else if c == 't' || c == 'T' {
        1099511627776
    } else {
        0
    }
}

/// Converts a human-readable size token (e.g. `4k`) to a byte count
/// (e.g. `4096`). Accepts the literal `0` with no unit; rejects every token
/// that is not a digit string followed by one of the unit suffixes, and any
/// value that does not fit in 64 bits.
pub fn parse_human(val: &str) -> (r: Result<u64, ChumError>)
    ensures
        r is Ok <==> human_ok(val@),
        r matches Ok(v) ==> v as nat == human_result(val@),
        !is_zero_str(val@) && !human_form(val@) ==> (r matches Err(e)
            && e@ == "provided value must be a positive number with a unit suffix"@),
        human_form(val@) && human_val(val@) > u64::MAX ==> (r matches Err(e)
            && e@ == "number too large to fit in target type"@),
{
    let n = val.unicode_len();
    if n == 1 && val.get_char(0) == '0' {
        return Ok(0);
    }
    if n < 2 {
        return Err(ChumError::new("provided value must be a positive number with a unit suffix"));
    }
    let mut acc: u64 = 0;
    let mut overflow = false;
    let mut i: usize = 0;
    while i < n - 1
        invariant
            2 <= n,
            n == val@.len(),
            i <= n - 1,
            forall|j: int| 0 <= j < i ==> is_dec_digit(val@[j]),
            !overflow ==> acc as nat == dec_val(val@.take(i as int)),
            overflow ==> dec_val(val@.take(i as int)) > u64::MAX,
        decreases n - i,
    {
        let c = val.get_char(i);
        let cv = c as u32;
        if cv < 48 || cv > 57 {
            proof {
                assert(!is_dec_digit(val@[i as int]));
                assert(val@.take(val@.len() - 1)[i as int] == val@[i as int]);
                assert(!all_digits(val@.take(val@.len() - 1)));
                assert(!human_form(val@));
            }
            return Err(ChumError::new(
                "provided value must be a positive number with a unit suffix",
            ));
        }
        let d: u64 = (cv - 48) as u64;
        proof {
            assert(is_dec_digit(val@[i as int]));
            assert(digit_val(val@[i as int]) == d as nat);
            lemma_dec_val_step(val@, i as int);
        }
        if !overflow {
            if acc <= (u64::MAX - d) / 10 {
                proof {
                    assert(acc * 10 + d <= u64::MAX) by (nonlinear_arith)
                        requires
                            acc <= (u64::MAX - d) / 10,
                            d <= 9,
                    ;
                }
                acc = acc * 10 + d;
            } else {
                proof {
                    assert(acc * 10 + d > u64::MAX) by (nonlinear_arith)
                        requires
                            acc > (u64::MAX - d) / 10,
                            d <= 9,
                    ;
                }
                overflow = true;
            }
        } else {
            proof {
                assert(dec_val(val@.take(i + 1 as int)) > u64::MAX);
            }
        }
        i += 1;
    }
    let u = val.get_char(n - 1);
    let m = unit_mult_exec(u);
    proof {
        assert(val@.take((n - 1) as int) =~= val@.take(val@.len() - 1));
    }
    if m == 0 {
        proof {
            assert(!human_form(val@));
        }
        return Err(ChumError::new("provided value must be a positive number with a unit suffix"));
    }
    proof {
        assert(human_form(val@));
        assert(!is_zero_str(val@));
    }
    if overflow {
        proof {
            assert(human_val(val@) > u64::MAX) by (nonlinear_arith)
                requires
                    human_val(val@) == dec_val(val@.take(val@.len() - 1)) * unit_mult(
                        val@[val@.len() - 1],
                    ),
                    dec_val(val@.take(val@.len() - 1)) > u64::MAX,
                    unit_mult(val@[val@.len() - 1]) >= 1,
            ;
        }
        return Err(ChumError::new("number too large to fit in target type"));
    }
    if acc > u64::MAX / m {
        proof {
            assert(acc * m > u64::MAX) by (nonlinear_arith)
                requires
                    acc > u64::MAX / m,
                    m >= 1,
            ;
        }
        return Err(ChumError::new("number too large to fit in target type"));
    }
    proof {
        assert(acc * m <= u64::MAX) by (nonlinear_arith)
            requires
                acc <= u64::MAX / m,
                m >= 1,
        ;
    }
    Ok(acc * m)
}

// ---------------------------------------------------------------------------
// Weighted token lists.
//
// A list `a:2,b` expands to `[a, a, b]`: each comma-separated token carries
// an optional `:WEIGHT` multiplier, defaulting to one.
// ---------------------------------------------------------------------------

/// The views of a sequence of strings.
pub open spec fn views_of(v: Seq<String>) -> Seq<Seq<char>> {
    v.map_values(|t: String| t@)
}

/// Splitting `s` at every occurrence of `sep`, the separators dropped.
/// An empty input yields one empty field, as `str::split` does.
pub open spec fn split_on(s: Seq<char>, sep: char) -> Seq<Seq<char>>
    decreases s.len(),
{
    if s.len() == 0 {
        seq![Seq::<char>::empty()]
    } else if s[0] == sep {
        seq![Seq::<char>::empty()] + split_on(s.skip(1), sep)
    } else {
        let r = split_on(s.skip(1), sep);
        seq![seq![s[0]] + r[0]] + r.skip(1)
    }
}

pub proof fn lemma_split_on_len(s: Seq<char>, sep: char)
    ensures
        split_on(s, sep).len() >= 1,
    decreases s.len(),
{
    if s.len() > 0 {
        lemma_split_on_len(s.skip(1), sep);
    }
}

/// Splitting at the first separator: with no separator in sight the whole
/// string is the only field, otherwise the prefix is the first field and the
/// rest splits on its own.
proof fn lemma_split_at_first(s: Seq<char>, sep: char, i: int)
    requires
        0 <= i <= s.len(),
        forall|j: int| 0 <= j < i ==> s[j] != sep,
        i < s.len() ==> s[i] == sep,
    ensures
        i == s.len() ==> split_on(s, sep) == seq![s],
        i < s.len() ==> split_on(s, sep) == seq![s.take(i)] + split_on(s.skip(i + 1), sep),
    decreases s.len(),
{
    lemma_split_on_len(s, sep);
    if s.len() == 0 {
        assert(split_on(s, sep) =~~= seq![s]);
    } else if i == 0 {
        if i < s.len() {
            assert(s.take(0) =~= Seq::<char>::empty());
            assert(split_on(s, sep) =~~= seq![s.take(0)] + split_on(s.skip(1), sep));
        }
    } else {
        let t = s.skip(1);
        assert(forall|j: int| 0 <= j < i - 1 ==> t[j] == s[j + 1] && t[j] != sep);
        lemma_split_at_first(t, sep, i - 1);
        lemma_split_on_len(t, sep);
        let r = split_on(t, sep);
        if i == s.len() {
            assert(r == seq![t]);
            assert(seq![s[0]] + r[0] =~= s);
            assert(r.skip(1) =~~= Seq::<Seq<char>>::empty());
            assert(split_on(s, sep) =~~= seq![s]);
        } else {
            assert(r == seq![t.take(i - 1)] + split_on(t.skip(i), sep));
            assert(r[0] == t.take(i - 1));
            assert(seq![s[0]] + t.take(i - 1) =~= s.take(i));
            assert(r.skip(1) =~~= split_on(t.skip(i), sep));
            assert(t.skip(i) =~= s.skip(i + 1));
            assert(split_on(s, sep) =~~= seq![s.take(i)] + split_on(s.skip(i + 1), sep));
        }
    }
}

/// Splits `s` at every occurrence of `sep`.
pub fn split_str(s: &str, sep: char) -> (r: Vec<String>)
    ensures
        views_of(r@) == split_on(s@, sep),
        r@.len() >= 1,
    decreases s@.len(),
{
    let n = s.unicode_len();
    let mut i: usize = 0;
    while i < n && s.get_char(i) != sep
        invariant
            i <= n,
            n == s@.len(),
            forall|j: int| 0 <= j < i ==> s@[j] != sep,
        decreases n - i,
    {
        i += 1;
    }
    proof {
        lemma_split_at_first(s@, sep, i as int);
    }
    if i == n {
        let mut r: Vec<String> = Vec::new();
        r.push(s.to_owned());
        proof {
            assert(views_of(r@) =~~= seq![s@]);
        }
        r
    } else {
        let head = s.substring_char(0, i);
        let tail = s.substring_char(i + 1, n);
        proof {
            assert(tail@ =~= s@.skip(i + 1));
            assert(head@ =~= s@.take(i as int));
        }
        let mut rest = split_str(tail, sep);
        let mut r: Vec<String> = Vec::new();
        r.push(head.to_owned());
        let ghost rv = rest@;
        r.append(&mut rest);
        proof {
            assert(views_of(r@) =~~= seq![s@.take(i as int)] + views_of(rv));
        }
        r
    }
}

/// The digit part of a weight token: `str::parse::<u32>` accepts one leading
/// plus sign.
pub open spec fn weight_digits(w: Seq<char>) -> Seq<char> {
    if w.len() >= 1 && w[0] == '+' {
        w.skip(1)
    } else {
        w
    }
}

/// Whether `w` parses as a 32-bit weight.
pub open spec fn is_weight(w: Seq<char>) -> bool {
    &&& weight_digits(w).len() > 0
    &&& all_digits(weight_digits(w))
    &&& dec_val(weight_digits(w)) <= u32::MAX
}

/// The value of a weight token.
pub open spec fn weight_val(w: Seq<char>) -> nat {
    dec_val(weight_digits(w))
}

fn parse_weight(s: &str) -> (r: Option<u32>)
    ensures
        r is Some <==> is_weight(s@),
        r matches Some(v) ==> v as nat == weight_val(s@),
{
    let n = s.unicode_len();
    let start: usize = if n >= 1 && s.get_char(0) == '+' {
        1
    } else {
        0
    };
    let ghost w = weight_digits(s@);
    proof {
        assert(w =~= s@.skip(start as int));
    }
    if n == start {
        return None;
    }
    let mut acc: u32 = 0;
    let mut i: usize = start;
    while i < n
        invariant
            start <= i <= n,
            n == s@.len(),
            w == weight_digits(s@),
            w == s@.skip(start as int),
            forall|j: int| start <= j < i ==> is_dec_digit(s@[j]),
            acc as nat == dec_val(w.take(i - start)),
            dec_val(w.take(i - start)) <= u32::MAX,
        decreases n - i,
    {
        let c = s.get_char(i);
        let cv = c as u32;
        if cv < 48 || cv > 57 {
            proof {
                assert(!is_dec_digit(s@[i as int]));
                assert(w[i - start] == s@[i as int]);
                assert(!all_digits(w));
            }
            return None;
        }
        let d: u32 = cv - 48;
        proof {
            assert(w[i - start] == s@[i as int]);
            assert(digit_val(w[i - start]) == d as nat);
            lemma_dec_val_step(w, i - start);
        }
        if acc <= (u32::MAX - d) / 10 {
            proof {
                assert(acc * 10 + d <= u32::MAX) by (nonlinear_arith)
                    requires
                        acc <= (u32::MAX - d) / 10,
                        d <= 9,
                ;
            }
            acc = acc * 10 + d;
        } else {
            proof {
                assert(acc * 10 + d > u32::MAX) by (nonlinear_arith)
                    requires
                        acc > (u32::MAX - d) / 10,
                        d <= 9,
                ;
                assert(dec_val(w.take((i - start) + 1)) > u32::MAX);
                lemma_dec_val_prefix_le(w, (i - start) + 1, w.len() as int);
                assert(w.take(w.len() as int) =~= w);
                assert(dec_val(w) > u32::MAX);
                assert(!is_weight(s@));
            }
            return None;
        }
        i += 1;
    }
    proof {
        assert(w.take(w.len() as int) =~= w);
        assert(forall|j: int| 0 <= j < w.len() ==> w[j] == s@[j + start]);
    }
    Some(acc)
}

/// The value of a digit string never shrinks as the string grows.
proof fn lemma_dec_val_prefix_le(s: Seq<char>, i: int, j: int)
    requires
        0 <= i <= j <= s.len(),
    ensures
        dec_val(s.take(i)) <= dec_val(s.take(j)),
    decreases j - i,
{
    if i < j {
        lemma_dec_val_prefix_le(s, i, j - 1);
        assert(s.take(j).drop_last() =~= s.take(j - 1));
    }
}

/// `w` copies of the key `t`.
pub open spec fn repeat_key(t: Seq<char>, w: nat) -> Seq<Seq<char>> {
    Seq::new(w, |i: int| t)
}

/// The `name[:weight]` fields of one distribution token.
pub open spec fn dist_parts(t: Seq<char>) -> Seq<Seq<char>> {
    split_on(t, ':')
}

/// Whether a distribution token is acceptable: at most one weight field,
/// and a weight that parses.
pub open spec fn valid_dist_token(t: Seq<char>) -> bool {
    ||| dist_parts(t).len() == 1
    ||| (dist_parts(t).len() == 2 && is_weight(dist_parts(t)[1]))
}

/// What one token contributes to the expansion.
pub open spec fn expand_token(t: Seq<char>) -> Seq<Seq<char>> {
    if dist_parts(t).len() == 1 {
        seq![t]
    } else {
        repeat_key(dist_parts(t)[0], weight_val(dist_parts(t)[1]))
    }
}

/// The full expansion of a token list.
pub open spec fn expand_tokens(ts: Seq<Seq<char>>) -> Seq<Seq<char>>
    decreases ts.len(),
{
    if ts.len() == 0 {
        Seq::empty()
    } else {
        expand_token(ts[0]) + expand_tokens(ts.skip(1))
    }
}

/// The error text reported for an unacceptable token.
pub open spec fn dist_err_msg(t: Seq<char>) -> Seq<char> {
    if dist_parts(t).len() > 2 {
        "too many multiples in token '"@ + t + "'"@
    } else {
        "failed to parse '"@ + dist_parts(t)[1] + "' as a number"@
    }
}

proof fn lemma_expand_tokens_snoc(ts: Seq<Seq<char>>, k: int)
    requires
        0 <= k < ts.len(),
    ensures
        expand_tokens(ts.take(k + 1)) == expand_tokens(ts.take(k)) + expand_token(ts[k]),
    decreases k,
{
    if k == 0 {
        reveal_with_fuel(expand_tokens, 3);
        let one = ts.take(1);
        assert(one[0] == ts[0]);
        assert(one.skip(1) =~~= Seq::<Seq<char>>::empty());
        assert(expand_tokens(ts.take(1)) =~~= expand_token(ts[0]));
        assert(ts.take(0) =~~= Seq::<Seq<char>>::empty());
        assert(expand_tokens(ts.take(0)) + expand_token(ts[0]) =~~= expand_token(ts[0]));
    } else {
        let t = ts.skip(1);
        lemma_expand_tokens_snoc(t, k - 1);
        assert(ts.take(k + 1).skip(1) =~~= t.take(k));
        assert(ts.take(k).skip(1) =~~= t.take(k - 1));
        assert(ts.take(k + 1)[0] == ts[0]);
        assert(ts.take(k)[0] == ts[0]);
        assert(expand_tokens(ts.take(k + 1)) == expand_token(ts[0]) + expand_tokens(t.take(k)));
        assert(expand_tokens(ts.take(k)) == expand_token(ts[0]) + expand_tokens(t.take(k - 1)));
        assert(t[k - 1] == ts[k]);
        assert(expand_token(ts[0]) + (expand_tokens(t.take(k - 1)) + expand_token(ts[k])) =~~= (
        expand_token(ts[0]) + expand_tokens(t.take(k - 1))) + expand_token(ts[k]));
    }
}

/// Expands a comma-separated token list, each token carrying an optional
/// `:WEIGHT` multiplier: `1:3,2` becomes `[1, 1, 1, 2]`. The same syntax
/// serves operation mixes (`r:2,w`) and size distributions (`128k,1m:2`).
pub fn expand_distribution(dstr: &str) -> (r: Result<Vec<String>, ChumError>)
    ensures
        r is Ok <==> (forall|i: int|
            0 <= i < split_on(dstr@, ',').len() ==> valid_dist_token(split_on(dstr@, ',')[i])),
        r matches Ok(v) ==> views_of(v@) == expand_tokens(split_on(dstr@, ',')),
        r matches Err(e) ==> exists|i: int|
            0 <= i < split_on(dstr@, ',').len() && !valid_dist_token(split_on(dstr@, ',')[i]) && (
            forall|j: int| 0 <= j < i ==> valid_dist_token(split_on(dstr@, ',')[j])) && e@
                == dist_err_msg(split_on(dstr@, ',')[i]),
{
    let toks = split_str(dstr, ',');
    let ghost ts = split_on(dstr@, ',');
    let mut out: Vec<String> = Vec::new();
    let mut k: usize = 0;
    proof {
        assert(ts.take(0) =~~= Seq::<Seq<char>>::empty());
        assert(views_of(out@) =~~= expand_tokens(ts.take(0)));
    }
    while k < toks.len()
        invariant
            ts == split_on(dstr@, ','),
            views_of(toks@) == ts,
            k <= toks@.len() == ts.len(),
            forall|j: int| 0 <= j < k ==> valid_dist_token(ts[j]),
            views_of(out@) == expand_tokens(ts.take(k as int)),
        decreases toks@.len() - k,
    {
        let ghost t = ts[k as int];
        let parts = split_str(toks[k].as_str(), ':');
        proof {
            assert(toks[k as int]@ == t);
            assert(views_of(parts@) == dist_parts(t));
        }
        if parts.len() == 1 {
            let key = toks[k].clone();
            out.push(key);
            proof {
                lemma_expand_tokens_snoc(ts, k as int);
                assert(views_of(out@) =~~= expand_tokens(ts.take(k as int)) + expand_token(t));
            }
        } else if parts.len() == 2 {
            match parse_weight(parts[1].as_str()) {
                Some(w) => {
                    proof {
                        assert(parts[1 as int]@ == dist_parts(t)[1]);
                        assert(valid_dist_token(t));
                    }
                    let mut c: u32 = 0;
                    while c < w
                        invariant
                            c <= w,
                            parts@.len() == 2,
                            views_of(parts@) == dist_parts(t),
                            w as nat == weight_val(dist_parts(t)[1]),
                            dist_parts(t).len() == 2,
                            views_of(out@) == expand_tokens(ts.take(k as int)) + repeat_key(
                                dist_parts(t)[0],
                                c as nat,
                            ),
                        decreases w - c,
                    {
                        let key = parts[0].clone();
                        let ghost kv = key@;
                        let ghost pre = out@;
                        proof {
                            assert(parts[0 as int]@ == dist_parts(t)[0]);
                            assert(kv == dist_parts(t)[0]);
                        }
                        out.push(key);
                        proof {
                            assert(out@ == pre.push(key));
                            assert(views_of(out@) =~~= views_of(pre).push(kv));
                            assert(repeat_key(dist_parts(t)[0], c as nat).push(kv)
                                =~~= repeat_key(dist_parts(t)[0], (c + 1) as nat));
                            assert(views_of(out@) =~~= expand_tokens(ts.take(k as int))
                                + repeat_key(dist_parts(t)[0], (c + 1) as nat));
                        }
                        c += 1;
                    }
                    proof {
                        lemma_expand_tokens_snoc(ts, k as int);
                        assert(repeat_key(dist_parts(t)[0], w as nat) == expand_token(t));
                        assert(views_of(out@) == expand_tokens(ts.take(k as int)) + expand_token(
                            t,
                        ));
                    }
                },
                None => {
                    proof {
                        assert(parts[1 as int]@ == dist_parts(t)[1]);
                        assert(!valid_dist_token(t));
                    }
                    let mut msg = "failed to parse '".to_owned();
                    msg.append(parts[1].as_str());
                    msg.append("' as a number");
                    let e = ChumError::new(msg.as_str());
                    proof {
                        let kk = k as int;
                        assert(0 <= kk < split_on(dstr@, ',').len());
                        assert(!valid_dist_token(split_on(dstr@, ',')[kk]));
                        assert(forall|j: int|
                            0 <= j < kk ==> valid_dist_token(split_on(dstr@, ',')[j]));
                        assert(e@ == dist_err_msg(split_on(dstr@, ',')[kk]));
                    }
                    return Err(e);
                },
            }
        } else {
            proof {
                lemma_split_on_len(t, ':');
                assert(!valid_dist_token(t));
            }
            let mut msg = "too many multiples in token '".to_owned();
            msg.append(toks[k].as_str());
            msg.append("'");
            let e = ChumError::new(msg.as_str());
            proof {
                let kk = k as int;
                assert(0 <= kk < split_on(dstr@, ',').len());
                assert(!valid_dist_token(split_on(dstr@, ',')[kk]));
                assert(forall|j: int| 0 <= j < kk ==> valid_dist_token(split_on(dstr@, ',')[j]));
                assert(e@ == dist_err_msg(split_on(dstr@, ',')[kk]));
            }
            return Err(e);
        }
        k += 1;
        proof {
            assert(views_of(out@) == expand_tokens(ts.take(k as int)));
        }
    }
    proof {
        assert(ts.take(ts.len() as int) =~~= ts);
    }
    Ok(out)
}

/// The error text that `parse_human` reports for an unacceptable token.
pub open spec fn human_err_msg(s: Seq<char>) -> Seq<char> {
    if !is_zero_str(s) && !human_form(s) {
        "provided value must be a positive number with a unit suffix"@
    } else {
        "number too large to fit in target type"@
    }
}

/// Converts a distribution created by `expand_distribution` into byte counts.
/// The first token that fails to parse aborts the conversion with its error.
pub fn convert_numeric_distribution(dstr: Vec<String>) -> (r: Result<Vec<u64>, ChumError>)
    ensures
        r is Ok <==> (forall|i: int| 0 <= i < dstr@.len() ==> human_ok(dstr@[i]@)),
        r matches Ok(v) ==> v@.len() == dstr@.len() && (forall|i: int|
            0 <= i < dstr@.len() ==> v@[i] as nat == human_result(dstr@[i]@)),
        r matches Err(e) ==> exists|i: int|
            0 <= i < dstr@.len() && !human_ok(dstr@[i]@) && (forall|j: int|
                0 <= j < i ==> human_ok(dstr@[j]@)) && e@ == human_err_msg(dstr@[i]@),
{
    let mut out: Vec<u64> = Vec::new();
    let mut k: usize = 0;
    while k < dstr.len()
        invariant
            k <= dstr@.len(),
            out@.len() == k,
            forall|j: int| 0 <= j < k ==> human_ok(dstr@[j]@),
            forall|j: int| 0 <= j < k ==> out@[j] as nat == human_result(dstr@[j]@),
        decreases dstr@.len() - k,
    {
        match parse_human(dstr[k].as_str()) {
            Ok(b) => {
                out.push(b);
            },
            Err(e) => {
                return Err(e);
            },
        }
        k += 1;
    }
    Ok(out)
}

/// Whether a workload token names a real operation a worker may run.
/// The synthetic error kind exists only for statistics bucketing and is not
/// selectable here.
pub open spec fn op_token_ok(s: Seq<char>) -> bool {
    s == "r"@ || s == "w"@ || s == "d"@
}

/// The operation a workload token names.
pub open spec fn op_of_token(s: Seq<char>) -> Operation {
    if s == "r"@ {
        Operation::Read
    } else if s == "w"@ {
        Operation::Write
    } else {
        Operation::Delete
    }
}

/// Converts a workload list created by `expand_distribution` into
/// operations. Only `r`, `w` and `d` are acceptable; any other token is a
/// configuration error.
pub fn convert_operation_distribution(ops: Vec<String>) -> (r: Result<Vec<Operation>, ChumError>)
    ensures
        r is Ok <==> (forall|i: int| 0 <= i < ops@.len() ==> op_token_ok(ops@[i]@)),
        r matches Ok(v) ==> v@.len() == ops@.len() && (forall|i: int|
            0 <= i < ops@.len() ==> v@[i] == op_of_token(ops@[i]@)),
        r matches Err(e) ==> e@ == "invalid operation requested"@ && exists|i: int|
            0 <= i < ops@.len() && !op_token_ok(ops@[i]@),
    {
    let mut out: Vec<Operation> = Vec::new();
    let mut k: usize = 0;
    while k < ops.len()
        invariant
            k <= ops@.len(),
            out@.len() == k,
            forall|j: int| 0 <= j < k ==> op_token_ok(ops@[j]@),
            forall|j: int| 0 <= j < k ==> out@[j] == op_of_token(ops@[j]@),
        decreases ops@.len() - k,
    {
        match Operation::from_str(ops[k].as_str()) {
            Ok(Operation::Error) => {
                return Err(ChumError::new("invalid operation requested"));
            },
            Ok(op) => {
                out.push(op);
            },
            Err(e) => {
                return Err(e);
            },
        }
        k += 1;
    }
    Ok(out)
}

/// Loads a pre-listed set of object keys into the queue, oldest first, as
/// when a read listing is supplied at startup. Each key arrives through the
/// queue's own insert rule, in file order; as long as everything fits under
/// the capacity bound the keys land in order, and past the bound the rule's
/// eviction applies key by key.
pub fn populate_queue(q: &mut Queue, keys: Vec<String>)
    requires
        old(q).wf(),
    ensures
        final(q).wf(),
        final(q).capacity() == old(q).capacity(),
        final(q).policy() == old(q).policy(),
        populated(old(q)@, final(q)@, views_of(keys@), old(q).capacity(), old(q).policy()),
        old(q)@.len() + keys@.len() <= old(q).capacity() ==> final(q)@ == old(q)@ + views_of(
            keys@,
        ),
{
    let ghost pre = q@;
    let mut k: usize = 0;
    while k < keys.len()
        invariant
            k <= keys@.len(),
            q.wf(),
            q.capacity() == old(q).capacity(),
            q.policy() == old(q).policy(),
            pre == old(q)@,
            populated(pre, q@, views_of(keys@.take(k as int)), q.capacity(), q.policy()),
            pre.len() + keys@.len() <= q.capacity() ==> q@ == pre + views_of(keys@.take(k as int)),
        decreases keys@.len() - k,
    {
        let obj = keys[k].clone();
        let ghost kv = obj@;
        let ghost mid = q@;
        q.insert(QueueItem { obj });
        proof {
            assert(insert_step(mid, q@, kv, q.capacity(), q.policy()));
            lemma_populated_snoc(
                pre,
                mid,
                q@,
                views_of(keys@.take(k as int)),
                kv,
                q.capacity(),
                q.policy(),
            );
            assert(views_of(keys@.take(k + 1)) =~~= views_of(keys@.take(k as int)).push(kv));
            if pre.len() + keys@.len() <= q.capacity() {
                assert(mid.len() < q.capacity());
                assert(q@ == mid.push(kv));
                assert(q@ =~~= pre + views_of(keys@.take(k + 1)));
            }
        }
        k += 1;
    }
    proof {
        assert(keys@.take(keys@.len() as int) =~~= keys@);
    }
}

} // verus!
