//! What the texts of errors tell.

use crate::error::{decimal, digit, over_limit_text, LimboError};
use crate::pool::failure;
use vstd::prelude::*;

verus! {

/// The number that a text of decimal digits stands for.
pub open spec fn number(text: Seq<char>) -> int
    decreases text.len(),
{
    if text.len() == 0 {
        0
    } else {
        number(text.drop_last()) * 10 + (text.last() as int - '0' as int)
    }
}

/// `text` is a number in digits, without zeros in front.
pub open spec fn is_numeral(text: Seq<char>) -> bool {
    &&& text.len() > 0
    &&& forall|i: int| 0 <= i < text.len() ==> '0' <= #[trigger] text[i] <= '9'
    &&& text.len() > 1 ==> text[0] != '0'
}

proof fn lemma_positive(text: Seq<char>)
    requires
        is_numeral(text),
    ensures
        number(text) >= 0,
        text[0] != '0' ==> number(text) >= 1,
    decreases text.len(),
{
    if text.len() > 1 {
        assert(text.drop_last()[0] == text[0]);
        lemma_positive(text.drop_last());
    } else {
        assert(text.drop_last() =~= Seq::empty());
        assert(number(text.drop_last()) == 0);
    }
}

proof fn lemma_digit(d: nat)
    requires
        d < 10,
    ensures
        '0' <= digit(d) <= '9',
        digit(d) as int == '0' as int + d,
{
}

/// A number in decimal is a numeral that stands for it.
pub proof fn decimal_stands_for_its_number(n: nat)
    ensures
        is_numeral(decimal(n)),
        number(decimal(n)) == n,
    decreases n,
{
    let text = decimal(n);
    if n < 10 {
        lemma_digit(n);
        assert(text.drop_last() =~= Seq::empty());
        assert(number(text.drop_last()) == 0);
    } else {
        decimal_stands_for_its_number(n / 10);
        lemma_digit(n % 10);
        assert(text.drop_last() =~= decimal(n / 10));
        assert(decimal(n / 10)[0] != '0') by {
            if decimal(n / 10).len() == 1 {
                let first = decimal(n / 10);
                assert(first.drop_last() =~= Seq::empty());
                assert(number(first.drop_last()) == 0);
            }
        }
        assert(text[0] == decimal(n / 10)[0]);
        assert forall|i: int| 0 <= i < text.len() implies '0' <= #[trigger] text[i] <= '9' by {
            if i < text.len() - 1 {
                assert(text[i] == decimal(n / 10)[i]);
            }
        }
    }
}

/// There is one numeral for a number.
pub proof fn numerals_are_unique(a: Seq<char>, b: Seq<char>)
    requires
        is_numeral(a),
        is_numeral(b),
        number(a) == number(b),
    ensures
        a == b,
    decreases a.len(),
{
    let (x, y) = (a.drop_last(), b.drop_last());
    assert(number(x) == number(y) && a.last() == b.last()) by {
        assert('0' <= a[a.len() - 1] <= '9' && '0' <= b[b.len() - 1] <= '9');
        let (d, e) = (a.last() as int - '0' as int, b.last() as int - '0' as int);
        assert(0 <= d < 10 && 0 <= e < 10);
        assert(number(x) * 10 + d == number(y) * 10 + e);
    }
    assert(x.len() > 0 ==> is_numeral(x)) by {
        if x.len() > 0 {
            assert(x[0] == a[0]);
            assert forall|i: int| 0 <= i < x.len() implies '0' <= #[trigger] x[i] <= '9' by {
                assert(x[i] == a[i]);
            }
        }
    }
    assert(y.len() > 0 ==> is_numeral(y)) by {
        if y.len() > 0 {
            assert(y[0] == b[0]);
            assert forall|i: int| 0 <= i < y.len() implies '0' <= #[trigger] y[i] <= '9' by {
                assert(y[i] == b[i]);
            }
        }
    }
    if x.len() > 0 {
        assert(x[0] != '0');
        lemma_positive(x);
    }
    if y.len() > 0 {
        assert(y[0] != '0');
        lemma_positive(y);
    }
    if x.len() > 0 && y.len() > 0 {
        numerals_are_unique(x, y);
    } else {
        assert(x =~= y);
    }
    assert(a =~= x.push(a.last()));
    assert(b =~= y.push(b.last()));
}

/// The refusal of an arena tells the size that it would have and the limit, each as a numeral.
pub proof fn refusal_tells_size_and_limit(
    bytes: nat,
    limit: nat,
    size_text: Seq<char>,
    limit_text: Seq<char>,
)
    requires
        is_numeral(size_text),
        is_numeral(limit_text),
        number(size_text) == bytes,
        number(limit_text) == limit,
    ensures
        over_limit_text(bytes, limit) == "arena size "@ + size_text + " B exceeds hard limit of "@
            + limit_text + " B"@,
{
    decimal_stands_for_its_number(bytes);
    decimal_stands_for_its_number(limit);
    numerals_are_unique(decimal(bytes), size_text);
    numerals_are_unique(decimal(limit), limit_text);
}

/// A result that is no error tells of no failure, and an error tells its own text.
pub proof fn failure_is_told_as_it_is(res: Result<(), LimboError>)
    ensures
        match res {
            Ok(_) => failure(res) is None,
            Err(LimboError::InternalError(text)) => failure(res) == Some(text@),
        },
{
}

} // verus!
