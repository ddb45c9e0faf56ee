use vstd::prelude::*;

verus! {

/// What the start-up arguments ask for: run the backup loop, print the
/// full usage line, or print the short hint.
#[derive(Clone, Copy, Debug, PartialEq, Eq, Structural)]
pub enum StartDecision {
    Run,
    Help,
    Hint,
}

/// The decision the argument list calls for: exactly seven tokens run
/// the loop; otherwise `--help` as the first argument after the program
/// name asks for the usage line, and anything else for the short hint.
pub open spec fn start_decision_spec(args: Seq<String>) -> StartDecision {
    if args.len() == 7 {
        StartDecision::Run
    } else if args.len() > 1 && args[1]@ == "--help"@ {
        StartDecision::Help
    } else {
        StartDecision::Hint
    }
}

/// Decides what the start-up arguments ask for.
pub fn check_start(args: &Vec<String>) -> (d: StartDecision)
    ensures
        d == start_decision_spec(args@),
{
    if args.len() == 7 {
        StartDecision::Run
    } else if args.len() > 1 {
        let help: String = "--help".to_owned();
        if args[1] == help {
            StartDecision::Help
        } else {
            StartDecision::Hint
        }
    } else {
        StartDecision::Hint
    }
}

/// A decimal digit.
pub open spec fn is_digit(c: char) -> bool {
    48 <= c as int <= 57
}

/// The value of a decimal digit.
pub open spec fn digit_val(c: char) -> int {
    c as int - 48
}

/// Every character of `s` is a decimal digit.
pub open spec fn all_digits(s: Seq<char>) -> bool {
    forall|i: int| 0 <= i < s.len() ==> is_digit(#[trigger] s[i])
}

/// The number the digits of `s` write in decimal.
pub open spec fn digits_val(s: Seq<char>) -> int
    decreases s.len(),
{
    if s.len() == 0 {
        0
    } else {
        digits_val(s.drop_last()) * 10 + digit_val(s.last())
    }
}

/// The digits of a delay argument: the argument itself, or what follows
/// one leading plus sign.
pub open spec fn delay_digits(s: Seq<char>) -> Seq<char> {
    if s.len() > 0 && s[0] == '+' {
        s.skip(1)
    } else {
        s
    }
}

/// A number written by digits is not negative.
proof fn lemma_digits_val_nonneg(s: Seq<char>)
    requires
        all_digits(s),
    ensures
        digits_val(s) >= 0,
    decreases s.len(),
{
    if s.len() > 0 {
        assert(all_digits(s.drop_last()));
        lemma_digits_val_nonneg(s.drop_last());
    }
}

/// Reading further digits can only grow the number they write.
proof fn lemma_digits_val_prefix(s: Seq<char>, k: int)
    requires
        all_digits(s),
        0 <= k <= s.len(),
    ensures
        digits_val(s.take(k)) <= digits_val(s),
    decreases s.len() - k,
{
    if k < s.len() {
        lemma_digits_val_prefix(s, k + 1);
        assert(all_digits(s.take(k)));
        assert(s.take(k + 1).drop_last() =~= s.take(k));
        assert(s.take(k + 1).last() == s[k]);
        lemma_digits_val_nonneg(s.take(k));
        assert(digits_val(s.take(k)) <= digits_val(s.take(k)) * 10 + digit_val(s[k]));
    } else {
        assert(s.take(k) =~= s);
    }
}

/// Reads a delay in minutes the way the standard unsigned parse does:
/// the digits, after at most one leading plus sign, written in decimal;
/// nothing when a character is no digit, no digits follow, or the value
/// does not fit.
pub fn parse_delay(s: &str) -> (r: Option<u32>)
    ensures
        r is Some <==> delay_digits(s@).len() > 0 && all_digits(delay_digits(s@)) && digits_val(
            delay_digits(s@),
        ) <= u32::MAX,
        r is Some ==> r.unwrap() == digits_val(delay_digits(s@)),
{
    let n: usize = s.unicode_len();
    let mut i: usize = 0;
    if n > 0 && s.get_char(0) == '+' {
        i = 1;
    }
    proof {
        assert(delay_digits(s@) =~= s@.skip(i as int));
    }
    let ghost body = s@.skip(i as int);
    if i >= n {
        proof {
            assert(body.len() == 0);
        }
        return None;
    }
    let mut val: u32 = 0;
    let mut j: usize = i;
    while j < n
        invariant
            i <= j <= n,
            n == s@.len(),
            body == s@.skip(i as int),
            body == delay_digits(s@),
            body.len() == n - i,
            all_digits(body.take(j - i)),
            val == digits_val(body.take(j - i)),
        decreases n - j,
    {
        let c = s.get_char(j);
        let u = c as u32;
        proof {
            assert(body[j - i] == s@[j as int]);
            assert(body.take(j - i + 1).drop_last() =~= body.take(j - i));
            assert(body.take(j - i + 1).last() == body[j - i]);
        }
        if u < 48 || u > 57 {
            proof {
                assert(!is_digit(body[j - i]));
                assert(!all_digits(body));
            }
            return None;
        }
        let d = u - 48;
        if val > (u32::MAX - d) / 10 {
            proof {
                assert(all_digits(body.take(j - i + 1)));
                assert(digits_val(body.take(j - i + 1)) > u32::MAX);
                if all_digits(body) {
                    lemma_digits_val_prefix(body, j - i + 1);
                }
            }
            return None;
        }
        val = val * 10 + d;
        j = j + 1;
    }
    proof {
        assert(body.take(n - i) =~= body);
    }
    Some(val)
}

} // verus!
