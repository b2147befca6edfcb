//! Argument validation: positions must be strictly positive decimal
//! integers, and a play argument must be an absolute URL, optionally
//! wrapped in one pair of angle brackets. Validation is pure: nothing is
//! mutated until it passes in full.
use vstd::prelude::*;
use vstd::string::StrSliceExecFns;
use vstd::string::StringExecFns;

verus! {

pub open spec fn is_dec_digit(c: char) -> bool {
    48 <= c as int <= 57
}

pub open spec fn digit_val(c: char) -> nat
    recommends
        is_dec_digit(c),
{
    (c as int - 48) as nat
}

pub open spec fn all_digits(s: Seq<char>) -> bool {
    forall|i: int| 0 <= i < s.len() ==> is_dec_digit(#[trigger] s[i])
}

/// The numeric value of a digit string, most significant digit first.
pub open spec fn dec_value(s: Seq<char>) -> nat
    decreases s.len(),
{
    if s.len() == 0 {
        0
    } else {
        dec_value(s.drop_last()) * 10 + digit_val(s.last())
    }
}

/// A valid position argument: non-empty, all decimal digits, strictly
/// positive, and small enough to address memory at all.
pub open spec fn is_valid_position_arg(s: Seq<char>) -> bool {
    &&& s.len() > 0
    &&& all_digits(s)
    &&& 1 <= dec_value(s) <= usize::MAX
}

/// A longer prefix of a digit string never has a smaller value.
proof fn lemma_dec_value_prefix_mono(s: Seq<char>, i: int, j: int)
    requires
        0 <= i <= j <= s.len(),
    ensures
        dec_value(s.subrange(0, i)) <= dec_value(s.subrange(0, j)),
    decreases j - i,
{
    if i < j {
        lemma_dec_value_prefix_mono(s, i, j - 1);
        assert(s.subrange(0, j).drop_last() =~= s.subrange(0, j - 1));
        assert(dec_value(s.subrange(0, j)) == dec_value(s.subrange(0, j - 1)) * 10 + digit_val(
            s.subrange(0, j).last(),
        ));
    }
}

/// Parse a position argument: `Some` exactly on valid position arguments,
/// with the value they denote.
pub fn parse_position(s: &str) -> (r: Option<usize>)
    ensures
        r is Some <==> is_valid_position_arg(s@),
        r matches Some(v) ==> v == dec_value(s@) && v >= 1,
{
    let n = s.unicode_len();
    if n == 0 {
        return None;
    }
    let mut i: usize = 0;
    let mut acc: usize = 0;
    while i < n
        invariant
            0 <= i <= n,
            n == s@.len(),
            all_digits(s@.subrange(0, i as int)),
            acc == dec_value(s@.subrange(0, i as int)),
        decreases n - i,
    {
        let ghost prefix = s@.subrange(0, i as int);
        let c = s.get_char(i);
        let v = c as u32;
        if v < 48 || v > 57 {
            proof {
                assert(!is_dec_digit(s@[i as int]));
            }
            return None;
        }
        let d = (v - 48) as usize;
        if acc > (usize::MAX - d) / 10 {
            // The value overflows: every longer prefix is at least as
            // large, so the whole argument is out of range.
            proof {
                assert(s@.subrange(0, i as int + 1).drop_last() =~= prefix);
                assert(s@.subrange(0, i as int + 1).last() == s@[i as int]);
                assert(dec_value(s@.subrange(0, i as int + 1)) == acc * 10 + d);
                assert(acc * 10 + d > usize::MAX) by (nonlinear_arith)
                    requires
                        acc > (usize::MAX - d) / 10,
                        d <= 9,
                        acc >= 0,
                ;
                lemma_dec_value_prefix_mono(s@, i as int + 1, n as int);
                assert(s@.subrange(0, n as int) =~= s@);
            }
            return None;
        }
        acc = acc * 10 + d;
        i = i + 1;
        proof {
            assert(s@.subrange(0, i as int).drop_last() =~= prefix);
            assert(s@.subrange(0, i as int).last() == s@[i as int - 1]);
        }
    }
    proof {
        assert(s@.subrange(0, n as int) =~= s@);
    }
    if acc == 0 {
        None
    } else {
        Some(acc)
    }
}

/// Whether a string parses as an absolute URL: a function of the string
/// alone.
pub uninterp spec fn is_absolute_url(s: Seq<char>) -> bool;

/// Relies on url::Url::parse, which returns Ok exactly when its input
/// parses as an absolute URL.
#[verifier::external_body]
fn parses_as_url(s: &str) -> (r: bool)
    ensures
        r == is_absolute_url(s@),
{
    url::Url::parse(s).is_ok()
}

/// The argument with one enclosing pair of angle brackets removed, as chat
/// clients add around links to suppress previews; anything else unchanged.
pub open spec fn stripped(s: Seq<char>) -> Seq<char> {
    if s.len() >= 2 && s[0] == '<' && s[s.len() - 1] == '>' {
        s.subrange(1, s.len() - 1)
    } else {
        s
    }
}

/// Validate a play argument: strip one optional pair of enclosing angle
/// brackets, then accept exactly the strings that parse as absolute URLs,
/// returning the stripped URL.
pub fn validate_url(arg: &str) -> (r: Option<String>)
    ensures
        r is Some <==> is_absolute_url(stripped(arg@)),
        r matches Some(u) ==> u@ == stripped(arg@),
{
    let n = arg.unicode_len();
    let core: &str = if n >= 2 && arg.get_char(0) == '<' && arg.get_char(n - 1) == '>' {
        arg.substring_char(1, n - 1)
    } else {
        arg
    };
    proof {
        assert(core@ =~= stripped(arg@));
    }
    if parses_as_url(core) {
        Some(String::from_str(core))
    } else {
        None
    }
}

} // verus!
