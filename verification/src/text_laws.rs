//! What callers can rely on of text, character by character.
use crate::cli;
use crate::cli::{FromText, KeyValError};
use crate::join;
use crate::join::{JoinError, JoinErrorRepr};
use crate::text;
use vstd::prelude::*;

verus! {

/// A text begins with another exactly if it has all its characters in front, and is the
/// same exactly if it has no others.
pub proof fn beginnings_are_recognized(
    s: &str,
    prefix: &str,
    begins: bool,
    same: bool,
)
    requires
        call_ensures(text::starts_with, (s, prefix), begins),
        call_ensures(text::same, (s, prefix), same),
    ensures
        begins <==> prefix@.len() <= s@.len() && forall|i: int|
            0 <= i < prefix@.len() ==> s@[i] == prefix@[i],
        same <==> begins && s@.len() == prefix@.len(),
{
    if begins {
        assert forall|i: int| 0 <= i < prefix@.len() implies s@[i] == prefix@[i] by {
            assert(s@.subrange(0, prefix@.len() as int)[i] == s@[i]);
        }
    }
    if prefix@.len() <= s@.len() && forall|i: int| 0 <= i < prefix@.len() ==> s@[i] == prefix@[i] {
        assert(s@.subrange(0, prefix@.len() as int) =~= prefix@);
        if s@.len() == prefix@.len() {
            assert(s@ =~= prefix@);
        }
    }
}

/// A text contains another exactly if it is made of that and what stands before and
/// behind it.
pub proof fn parts_are_recognized(s: &str, part: &str, r: bool)
    requires
        call_ensures(text::contains, (s, part), r),
    ensures
        r <==> exists|before: Seq<char>, behind: Seq<char>|
            s@ == #[trigger] (before + part@ + behind),
{
    let p = part@;
    if r {
        let at = choose|at: int| text::stands_at(s@, p, at);
        let before = s@.subrange(0, at);
        let behind = s@.subrange(at + p.len(), s@.len() as int);
        assert(s@ =~= before + p + behind) by {
            assert forall|i: int| 0 <= i < s@.len() implies s@[i] == (before + p + behind)[i] by {
                if at <= i < at + p.len() {
                    assert(s@.subrange(at, at + p.len())[i - at] == s@[i]);
                }
            }
        }
    }
    if exists|before: Seq<char>, behind: Seq<char>| s@ == #[trigger] (before + p + behind) {
        let (before, behind) = choose|before: Seq<char>, behind: Seq<char>|
            s@ == #[trigger] (before + p + behind);
        let at = before.len() as int;
        assert(s@.subrange(at, at + p.len()) =~= p);
        assert(text::stands_at(s@, p, at));
    }
}

proof fn digits_stand_for(d: nat)
    requires
        d < 10,
    ensures
        text::is_digit(text::digit(d)),
        text::digit(d) as nat - 48 == d,
        text::digit(d) != '+',
{
    let c = text::digit(d);
    assert(c as u32 == 48 + d);
}

proof fn decimal_is_digits(n: nat)
    ensures
        text::decimal(n).len() > 0,
        text::all_digits(text::decimal(n)),
        text::digits_value(text::decimal(n)) == n,
        text::decimal(n)[0] != '+',
    decreases n,
{
    let s = text::decimal(n);
    reveal_with_fuel(text::digits_value, 2);
    if n < 10 {
        digits_stand_for(n);
        assert(s.drop_last() =~= Seq::empty());
    } else {
        decimal_is_digits(n / 10);
        digits_stand_for(n % 10);
        let front = text::decimal(n / 10);
        assert(s.drop_last() =~= front);
        assert forall|i: int| 0 <= i < s.len() implies text::is_digit(#[trigger] s[i]) by {
            if i < front.len() {
                assert(s[i] == front[i]);
            }
        }
        assert(s[0] == front[0]);
    }
}

/// A number that is written down is read back, if it is not too large; a plus sign in
/// front makes no difference.
pub proof fn written_numbers_are_read(
    n: u64,
    max: u64,
    written: String,
    s: &str,
    plus: &str,
    read: Option<u64>,
    read_plus: Option<u64>,
)
    requires
        call_ensures(text::decimal_text, (n as u128,), written),
        s@ == written@,
        plus@ == seq!['+'] + written@,
        call_ensures(text::parse_unsigned, (s, max), read),
        call_ensures(text::parse_unsigned, (plus, max), read_plus),
    ensures
        read == (if n <= max {
            Some(n)
        } else {
            None
        }),
        read_plus == read,
{
    decimal_is_digits(n as nat);
    assert(plus@.drop_first() =~= written@);
    assert(plus@[0] == '+');
}

/// One more digit makes a number ten times as large, plus the digit; anything that is not
/// a digit, other than a plus sign in front, makes it no number.
pub proof fn digits_count_by_place(
    s: &str,
    longer: &str,
    c: char,
    max: u64,
    read: Option<u64>,
    read_longer: Option<u64>,
)
    requires
        s@.len() > 0,
        longer@ == s@.push(c),
        call_ensures(text::parse_unsigned, (s, max), read),
        call_ensures(text::parse_unsigned, (longer, max), read_longer),
    ensures
        !('0' <= c && c <= '9') ==> read_longer is None,
        '0' <= c && c <= '9' ==> (read matches Some(n) ==> read_longer == (if n * 10 + (c as nat
            - 48) <= max {
            Some((n * 10 + (c as nat - 48)) as u64)
        } else {
            None
        })),
        '0' <= c && c <= '9' && read is None && s@ != seq!['+'] ==> read_longer is None,
{
    let d = text::digits_of(s@);
    let e = text::digits_of(longer@);
    assert(e =~= d.push(c));
    assert(e.drop_last() =~= d);
    assert(e[d.len() as int] == c);
    reveal_with_fuel(text::digits_value, 2);
    if text::all_digits(e) {
        assert forall|i: int| 0 <= i < d.len() implies text::is_digit(#[trigger] d[i]) by {
            assert(e[i] == d[i]);
        }
    }
    if text::all_digits(d) && text::is_digit(c) {
        assert forall|i: int| 0 <= i < e.len() implies text::is_digit(#[trigger] e[i]) by {
            if i < d.len() {
                assert(e[i] == d[i]);
            }
        }
    }
    if d.len() == 0 {
        assert(s@ =~= seq!['+']);
    }
}

proof fn first_colon(k: Seq<char>, v: Seq<char>)
    requires
        forall|i: int| 0 <= i < k.len() ==> k[i] != ':',
    ensures
        cli::colon(k + seq![':'] + v) == k.len(),
        cli::colon(k) == k.len(),
    decreases k.len(),
{
    let s = k + seq![':'] + v;
    if k.len() > 0 {
        let rest = k.drop_first();
        assert forall|i: int| 0 <= i < rest.len() implies rest[i] != ':' by {
            assert(rest[i] == k[i + 1]);
        }
        first_colon(rest, v);
        assert(s.drop_first() =~= rest + seq![':'] + v);
        assert(s[0] == k[0]);
    } else {
        assert(s[0] == ':');
    }
}

/// What stands before the first colon is the key and all that follows it is the value,
/// further colons too. The key is looked at first. Without a colon there is no pair.
pub proof fn pairs_are_split_at_the_first_colon<T: FromText, U: FromText>(
    k: &str,
    v: &str,
    s: &str,
    key: Option<T>,
    val: Option<U>,
    pair: Result<(T, U), KeyValError>,
    single: Result<(T, U), KeyValError>,
)
    requires
        forall|i: int| 0 <= i < k@.len() ==> k@[i] != ':',
        s@ == k@ + seq![':'] + v@,
        call_ensures(T::from_text, (k,), key),
        call_ensures(U::from_text, (v,), val),
        call_ensures(cli::parse_key_val::<T, U>, (s,), pair),
        call_ensures(cli::parse_key_val::<T, U>, (k,), single),
    ensures
        match (key, val) {
            (Some(x), Some(y)) => pair matches Ok((a, b)) && a.said() == x.said() && b.said()
                == y.said(),
            (None, _) => pair == Err::<(T, U), KeyValError>(KeyValError::InvalidKey),
            (Some(_), None) => pair == Err::<(T, U), KeyValError>(KeyValError::InvalidValue),
        },
        single matches Err(KeyValError::NoColon(_)),
{
    first_colon(k@, v@);
    assert(s@.subrange(0, k@.len() as int) =~= k@);
    assert(s@.subrange(k@.len() as int + 1, s@.len() as int) =~= v@);
}

/// A task that did not complete was cancelled, panicked or failed, one of the three, and
/// gives back what it panicked with.
pub proof fn one_reason_for_each_failure<P>(
    repr: JoinErrorRepr<P>,
    e: JoinError<P>,
    cancelled: bool,
    failed: bool,
    panicked: bool,
    payload: Result<P, JoinError<P>>,
)
    requires
        call_ensures(JoinError::<P>::new, (repr,), e),
        call_ensures(JoinError::<P>::is_cancelled, (&e,), cancelled),
        call_ensures(JoinError::<P>::is_failed, (&e,), failed),
        call_ensures(JoinError::<P>::is_panic, (&e,), panicked),
        call_ensures(JoinError::<P>::try_into_panic, (e,), payload),
    ensures
        match repr {
            JoinErrorRepr::Aborted => cancelled && !failed && !panicked && payload == Err::<
                P,
                JoinError<P>,
            >(e),
            JoinErrorRepr::Failed => !cancelled && failed && !panicked && payload == Err::<
                P,
                JoinError<P>,
            >(e),
            JoinErrorRepr::Panicked(p) => !cancelled && !failed && panicked && payload == Ok::<
                P,
                JoinError<P>,
            >(p),
        },
{
}

/// A task that ends without a result has failed; what it did send is its result.
pub proof fn missing_results_are_failures<T, P>(
    sent: Option<Result<T, JoinError<P>>>,
    r: Result<T, JoinError<P>>,
    failed: bool,
)
    requires
        call_ensures(join::join_result::<T, P>, (sent,), r),
        r matches Err(e) ==> call_ensures(JoinError::<P>::is_failed, (&e,), failed),
    ensures
        sent matches Some(s) ==> r == s,
        sent is None ==> r is Err && failed,
{
}

} // verus!
