//! The command-line vocabulary: output formats, the subcommands of
//! `config` and `ignore`, and the parsing of the minimum token count.

use vstd::prelude::*;
use crate::text::{append_str, chars_of, decimal, owned, push_signed_decimal, signed_decimal};

verus! {

broadcast use vstd::string::group_string_axioms;

/// Output format
#[derive(Clone, Copy, Debug, PartialEq, Eq, Structural)]
pub enum OutputFormat {
    /// Human-readable text output
    Text,
    /// JSON output for scripting
    Json,
    /// SARIF output for GitHub Code Scanning integration
    Sarif,
    /// VS Code problem matcher format (file:line:col: severity: message)
    Vscode,
    /// Compiler-style output (like rustc/gcc warnings)
    Compiler,
}

/// Manage configuration file
pub enum ConfigCommands {
    /// Validate configuration file
    Validate {
        /// Path to configuration file (default: search for .polyduprc.toml)
        config_path: Option<String>,
    },
    /// Show configuration file path
    Path,
    /// Show configuration summary
    Show {
        /// Path to configuration file (default: search for .polyduprc.toml)
        config_path: Option<String>,
    },
}

/// Manage ignored duplicates
pub enum IgnoreCommands {
    /// Add a duplicate to the ignore list
    Add {
        /// Duplicate ID to ignore (from scan output)
        id: Option<String>,
        /// Files containing the duplicate (format: "path:start-end")
        files: Vec<String>,
        /// Reason for ignoring this duplicate
        reason: Option<String>,
        /// Who is adding this ignore entry
        added_by: String,
    },
    /// List all ignored duplicates
    List {
        /// Show detailed information
        verbose: bool,
        /// Output format
        format: OutputFormat,
    },
    /// Remove a duplicate from the ignore list
    Remove {
        /// Duplicate ID to remove
        id: String,
    },
}

// ---------------------------------------------------------------------------
// Integer parsing
// ---------------------------------------------------------------------------

/// `c` is an ASCII digit.
pub open spec fn is_digit(c: char) -> bool {
    '0' <= c && c <= '9'
}

/// One or more ASCII digits.
pub open spec fn all_digits(d: Seq<char>) -> bool {
    d.len() > 0 && forall|i: int| 0 <= i < d.len() ==> is_digit(#[trigger] d[i])
}

/// The value of a sequence of decimal digits.
pub open spec fn digits_value(d: Seq<char>) -> nat
    decreases d.len(),
{
    if d.len() == 0 {
        0
    } else {
        digits_value(d.drop_last()) * 10 + ((d.last() as u32) - ('0' as u32)) as nat
    }
}

/// The value that std's `str::parse::<i64>` gives for `s`: an optional `+`
/// or `-` sign followed by one or more ASCII digits, in the range of `i64`;
/// anything else is rejected.
pub open spec fn parse_i64(s: Seq<char>) -> Option<int> {
    let neg = s.len() > 0 && s[0] == '-';
    let body = if s.len() > 0 && (s[0] == '-' || s[0] == '+') {
        s.drop_first()
    } else {
        s
    };
    if !all_digits(body) {
        None
    } else {
        let v: int = if neg {
            -(digits_value(body) as int)
        } else {
            digits_value(body) as int
        };
        if i64::MIN <= v && v <= i64::MAX {
            Some(v)
        } else {
            None
        }
    }
}

proof fn lemma_digits_value_grows(d: Seq<char>, c: char)
    requires
        is_digit(c),
    ensures
        digits_value(d.push(c)) >= digits_value(d),
        digits_value(d.push(c)) == digits_value(d) * 10 + ((c as u32) - ('0' as u32)),
{
    assert(d.push(c).drop_last() =~= d);
}

/// Parses a decimal `i64` as std's `str::parse::<i64>` does.
pub fn parse_i64_text(s: &str) -> (r: Option<i64>)
    ensures
        match r {
            Some(v) => parse_i64(s@) == Some(v as int),
            None => parse_i64(s@) is None,
        },
{
    let v = chars_of(s);
    let neg = v.len() > 0 && v[0] == '-';
    let start: usize = if v.len() > 0 && (v[0] == '-' || v[0] == '+') { 1 } else { 0 };
    let ghost body = if s@.len() > 0 && (s@[0] == '-' || s@[0] == '+') {
        s@.drop_first()
    } else {
        s@
    };
    assert(body =~= s@.subrange(start as int, s@.len() as int));
    if start >= v.len() {
        assert(!all_digits(body));
        return None;
    }
    // Accumulate the magnitude; stop caring about its exact value once it
    // exceeds 2^63.
    let limit: u64 = 9223372036854775808;
    let mut acc: u64 = 0;
    let mut too_big = false;
    let mut i: usize = start;
    assert(s@.subrange(start as int, start as int) =~= Seq::<char>::empty());
    while i < v.len()
        invariant
            start <= i <= v.len(),
            v@ == s@,
            body == s@.subrange(start as int, s@.len() as int),
            body == (if s@.len() > 0 && (s@[0] == '-' || s@[0] == '+') {
                s@.drop_first()
            } else {
                s@
            }),
            limit == 9223372036854775808u64,
            forall|k: int| start <= k < i ==> is_digit(#[trigger] s@[k]),
            !too_big ==> acc == digits_value(s@.subrange(start as int, i as int)),
            !too_big ==> acc <= limit,
            too_big ==> digits_value(s@.subrange(start as int, i as int)) > limit,
        decreases v.len() - i,
    {
        let c = v[i];
        if !('0' <= c && c <= '9') {
            assert(body[i - start] == c);
            assert(!all_digits(body));
            return None;
        }
        assert(48 <= (c as u32) <= 57);
        let ghost prefix = s@.subrange(start as int, i as int);
        assert(s@.subrange(start as int, i + 1) =~= prefix.push(c));
        proof {
            lemma_digits_value_grows(prefix, c);
        }
        if !too_big {
            let d = (c as u32 - 48) as u64;
            assert(d <= 9);
            if acc > (limit - d) / 10 {
                too_big = true;
            } else {
                acc = acc * 10 + d;
            }
        }
        i = i + 1;
    }
    assert(s@.subrange(start as int, v.len() as int) == body);
    assert(all_digits(body));
    if too_big {
        return None;
    }
    if neg {
        if acc == limit {
            Some(i64::MIN)
        } else {
            Some(-(acc as i64))
        }
    } else {
        if acc == limit {
            None
        } else {
            Some(acc as i64)
        }
    }
}

// ---------------------------------------------------------------------------
// Minimum token count
// ---------------------------------------------------------------------------

/// The error for a negative token count.
pub open spec fn negative_tokens_message(n: int) -> Seq<char> {
    "Minimum token count must be positive, got: "@ + signed_decimal(n)
        + "\nSuggestion: Use a value greater than 0 (e.g., --threshold 50)\nTip: Typical values range from 25-100 tokens."@
}

/// The error for a token count of zero.
pub open spec fn zero_tokens_message() -> Seq<char> {
    "Minimum token count cannot be 0\nSuggestion: Use at least 10 tokens for meaningful results\nTip: Default is 50 tokens. Try values between 25-100."@
}

/// The error for text that is not a number.
pub open spec fn invalid_tokens_message(s: Seq<char>) -> Seq<char> {
    "Invalid number: '"@ + s + "'\nSuggestion: Provide a positive integer (e.g., --threshold 50)"@
}

/// The outcome of parsing `--min-tokens`: a positive whole number, or the
/// error for a negative number, for zero, or for anything else.
pub open spec fn min_tokens_result(s: Seq<char>) -> Result<usize, Seq<char>> {
    match parse_i64(s) {
        Some(n) => if n < 0 {
            Err(negative_tokens_message(n))
        } else if n == 0 {
            Err(zero_tokens_message())
        } else {
            Ok(n as usize)
        },
        None => Err(invalid_tokens_message(s)),
    }
}

/// Parse min_block_size with proper error messages for invalid values
pub fn parse_min_tokens(s: &str) -> (r: Result<usize, String>)
    ensures
        match min_tokens_result(s@) {
            Ok(n) => r == Ok::<usize, String>(n),
            Err(m) => r is Err && r->Err_0@ == m,
        },
{
    match parse_i64_text(s) {
        Some(n) => {
            if n < 0 {
                let mut m = owned("Minimum token count must be positive, got: ");
                push_signed_decimal(&mut m, n);
                append_str(
                    &mut m,
                    "\nSuggestion: Use a value greater than 0 (e.g., --threshold 50)\nTip: Typical values range from 25-100 tokens.",
                );
                Err(m)
            } else if n == 0 {
                Err(
                    owned(
                        "Minimum token count cannot be 0\nSuggestion: Use at least 10 tokens for meaningful results\nTip: Default is 50 tokens. Try values between 25-100.",
                    ),
                )
            } else {
                Ok(n as usize)
            }
        },
        None => {
            let mut m = owned("Invalid number: '");
            append_str(&mut m, s);
            append_str(&mut m, "'\nSuggestion: Provide a positive integer (e.g., --threshold 50)");
            Err(m)
        },
    }
}

proof fn lemma_digit_char_value(d: nat)
    requires
        d < 10,
    ensures
        is_digit(crate::text::digit_char(d)),
        (crate::text::digit_char(d) as u32) - ('0' as u32) == d,
{
    if d == 0 {
        assert(crate::text::digit_char(d) == '0');
    } else if d == 1 {
        assert(crate::text::digit_char(d) == '1');
    } else if d == 2 {
        assert(crate::text::digit_char(d) == '2');
    } else if d == 3 {
        assert(crate::text::digit_char(d) == '3');
    } else if d == 4 {
        assert(crate::text::digit_char(d) == '4');
    } else if d == 5 {
        assert(crate::text::digit_char(d) == '5');
    } else if d == 6 {
        assert(crate::text::digit_char(d) == '6');
    } else if d == 7 {
        assert(crate::text::digit_char(d) == '7');
    } else if d == 8 {
        assert(crate::text::digit_char(d) == '8');
    } else {
        assert(crate::text::digit_char(d) == '9');
    }
}

/// The digits of a decimal notation are its value.
proof fn lemma_decimal_digits(n: nat)
    ensures
        all_digits(decimal(n)),
        digits_value(decimal(n)) == n,
    decreases n,
{
    lemma_digit_char_value(n % 10);
    if n >= 10 {
        lemma_decimal_digits(n / 10);
        let d = decimal(n / 10);
        assert(decimal(n) == d.push(crate::text::digit_char(n % 10)));
        assert(decimal(n).drop_last() =~= d);
        assert(decimal(n).last() == crate::text::digit_char(n % 10));
        assert((n / 10) * 10 + n % 10 == n) by (nonlinear_arith);
        let c = crate::text::digit_char(n % 10);
        assert(digits_value(decimal(n)) == digits_value(d) * 10 + ((c as u32) - ('0' as u32)) as nat);
        assert forall|i: int| 0 <= i < decimal(n).len() implies is_digit(#[trigger] decimal(n)[i]) by {
            if i < d.len() {
                assert(decimal(n)[i] == d[i]);
            }
        }
    } else {
        assert(decimal(n) == seq![crate::text::digit_char(n)]);
        assert(decimal(n).drop_last() =~= Seq::<char>::empty());
        let c = crate::text::digit_char(n);
        assert(digits_value(decimal(n)) == digits_value(Seq::<char>::empty()) * 10 + ((c as u32) - ('0' as u32)) as nat);
    }
}

/// Parsing the decimal notation of a positive count within `i64` gives back
/// that count.
pub proof fn lemma_min_tokens_round_trip(n: usize)
    requires
        0 < n <= i64::MAX,
    ensures
        min_tokens_result(decimal(n as nat)) == Ok::<usize, Seq<char>>(n),
{
    lemma_decimal_digits(n as nat);
    let s = decimal(n as nat);
    assert(s[0] != '-' && s[0] != '+');
}

} // verus!
