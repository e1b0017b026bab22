use vstd::prelude::*;
use vstd::string::*;

verus! {

/// Whether `c` is an ASCII decimal digit.
pub open spec fn is_digit(c: char) -> bool {
    '0' <= c <= '9'
}

/// Whether `s` is a non-empty run of decimal digits.
pub open spec fn all_digits(s: Seq<char>) -> bool {
    s.len() > 0 && forall|i: int| 0 <= i < s.len() ==> #[trigger] is_digit(s[i])
}

/// The value of a run of decimal digits.
pub open spec fn digits_value(s: Seq<char>) -> int
    decreases s.len(),
{
    if s.len() == 0 {
        0
    } else {
        digits_value(s.drop_last()) * 10 + (s.last() as int - '0' as int)
    }
}

/// The text of a query that could name an id: the query without one leading `+`.
pub open spec fn id_text(s: Seq<char>) -> Seq<char> {
    if s.len() > 0 && s[0] == '+' {
        s.drop_first()
    } else {
        s
    }
}

/// Whether a query reads as an id: an optional `+` followed by decimal digits,
/// whatever their value.
pub open spec fn is_id_query(s: Seq<char>) -> bool {
    all_digits(id_text(s))
}

/// The id a query names when it reads as an id and its value fits in `usize`;
/// `None` for any other text.
pub open spec fn parsed_id(s: Seq<char>) -> Option<usize> {
    if is_id_query(s) && digits_value(id_text(s)) <= usize::MAX as int {
        Some(digits_value(id_text(s)) as usize)
    } else {
        None
    }
}

/// A run of decimal digits has a value of at least zero.
pub proof fn lemma_digits_value_nonneg(q: Seq<char>)
    requires
        forall|i: int| 0 <= i < q.len() ==> #[trigger] is_digit(q[i]),
    ensures
        digits_value(q) >= 0,
    decreases q.len(),
{
    if q.len() > 0 {
        assert(is_digit(q[q.len() - 1]));
        assert forall|i: int| 0 <= i < q.drop_last().len() implies #[trigger] is_digit(q.drop_last()[i]) by {
            assert(is_digit(q[i]));
        }
        lemma_digits_value_nonneg(q.drop_last());
    }
}

/// Relies on usize::from_str_radix in base ten: it accepts exactly an optional `+`
/// followed by one or more decimal digits whose value fits in `usize`, and fails
/// on all other text.
#[verifier::external_body]
fn parse_decimal(s: &str) -> (r: Option<usize>)
    ensures
        r == parsed_id(s@),
{
    usize::from_str_radix(s, 10).ok()
}

/// Whether `q` reads as an id: an optional `+` followed by decimal digits.
pub fn reads_as_id(q: &str) -> (r: bool)
    ensures
        r == is_id_query(q@),
{
    let n = q.unicode_len();
    let start: usize = if n > 0 && q.get_char(0) == '+' {
        1
    } else {
        0
    };
    if start >= n {
        return false;
    }
    let ghost d = id_text(q@);
    assert(d.len() == n - start);
    let mut i: usize = start;
    while i < n
        invariant
            d == id_text(q@),
            n == q@.len(),
            d.len() == n - start,
            start <= i <= n,
            start == 0 || (start == 1 && q@[0] == '+'),
            start == 1 <==> (q@.len() > 0 && q@[0] == '+'),
            forall|j: int| 0 <= j < i - start ==> #[trigger] is_digit(d[j]),
        decreases n - i,
    {
        let c = q.get_char(i);
        assert(d[i - start] == c);
        if !('0' <= c && c <= '9') {
            assert(!is_digit(d[i - start]));
            return false;
        }
        i = i + 1;
    }
    true
}

/// A query, classified once: an id, an id too large to name any slot, or a
/// file name or stem.
#[derive(Clone, Debug, PartialEq, Eq)]
pub enum Query {
    ById(usize),
    IdTooLarge,
    ByName(String),
}

impl Query {
    /// Classifies raw query text: text that reads as an id (an optional `+` and
    /// decimal digits) is an id, too large for any slot when its value exceeds
    /// `usize`; anything else is a name.
    pub fn classify(q: &str) -> (r: Query)
        ensures
            match parsed_id(q@) {
                Some(id) => r == Query::ById(id),
                None => if is_id_query(q@) {
                    r == Query::IdTooLarge
                } else {
                    r is ByName && r->ByName_0@ == q@
                },
            },
    {
        match parse_decimal(q) {
            Some(id) => Query::ById(id),
            None => if reads_as_id(q) {
                Query::IdTooLarge
            } else {
                Query::ByName(q.to_owned())
            },
        }
    }
}

} // verus!
