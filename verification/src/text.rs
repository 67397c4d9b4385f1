//! Names and numerals: local-name extraction from qualified XML names,
//! string equality, and decimal occurrence counts.

use vstd::prelude::*;
use vstd::string::StrSliceExecFns;

verus! {

/// Whether the character sequence contains a colon.
pub open spec fn has_colon(s: Seq<char>) -> bool
    decreases s.len(),
{
    s.len() > 0 && (s[0] == ':' || has_colon(s.skip(1)))
}

/// The local part of a possibly qualified name: everything after the first
/// colon, or the whole sequence when there is none.
pub open spec fn split_ns(s: Seq<char>) -> Seq<char>
    decreases s.len(),
{
    if !has_colon(s) {
        s
    } else if s[0] == ':' {
        s.skip(1)
    } else {
        split_ns(s.skip(1))
    }
}

proof fn lemma_has_colon_at(s: Seq<char>, i: int)
    requires
        0 <= i < s.len(),
        s[i] == ':',
    ensures
        has_colon(s),
    decreases i,
{
    if i > 0 {
        lemma_has_colon_at(s.skip(1), i - 1);
    }
}

proof fn lemma_no_colon(s: Seq<char>)
    requires
        forall|j: int| 0 <= j < s.len() ==> s[j] != ':',
    ensures
        !has_colon(s),
    decreases s.len(),
{
    if s.len() > 0 {
        lemma_no_colon(s.skip(1));
    }
}

proof fn lemma_split_at_first_colon(s: Seq<char>, i: int)
    requires
        0 <= i < s.len(),
        s[i] == ':',
        forall|j: int| 0 <= j < i ==> s[j] != ':',
    ensures
        split_ns(s) == s.skip(i + 1),
    decreases i,
{
    lemma_has_colon_at(s, i);
    if i == 0 {
    } else {
        lemma_split_at_first_colon(s.skip(1), i - 1);
        assert(s.skip(1).skip(i) =~= s.skip(i + 1));
    }
}

/// An unqualified name is left exactly as it is: stripping is the
/// identity on any name without a colon.
pub proof fn lemma_local_name_unqualified(s: Seq<char>)
    requires
        !has_colon(s),
    ensures
        split_ns(s) == s,
{
}

/// Stripping a qualified name `ns:local` yields `local` itself, for any
/// colon-free prefix: a document naming a field `ns:Local` reads exactly
/// as one naming it `Local`.
pub proof fn lemma_local_name_qualified(ns: Seq<char>, local: Seq<char>)
    requires
        !has_colon(ns),
    ensures
        split_ns(ns + seq![':'] + local) == local,
    decreases ns.len(),
{
    let s = ns + seq![':'] + local;
    lemma_has_colon_at(s, ns.len() as int);
    if ns.len() == 0 {
        assert(s.skip(1) =~= local);
    } else {
        assert(s[0] == ns[0]);
        assert(s[0] != ':');
        assert(s.skip(1) =~= ns.skip(1) + seq![':'] + local);
        lemma_local_name_qualified(ns.skip(1), local);
    }
}

/// The local part of a possibly qualified name.  Namespace prefixes are
/// collapsed to nothing, so two prefixes that map the same local name
/// collide; this is the one place that rule lives.
pub fn split_namespace(s: &str) -> (r: &str)
    ensures
        r@ == split_ns(s@),
{
    let len = s.unicode_len();
    let mut i: usize = 0;
    while i < len
        invariant
            0 <= i <= len,
            len == s@.len(),
            forall|j: int| 0 <= j < i ==> s@[j] != ':',
        decreases len - i,
    {
        if s.get_char(i) == ':' {
            proof {
                lemma_split_at_first_colon(s@, i as int);
            }
            return s.substring_char(i + 1, len);
        }
        i = i + 1;
    }
    proof {
        lemma_no_colon(s@);
    }
    s
}

/// String equality over the character sequences of two slices.
pub fn str_eq(a: &str, b: &str) -> (r: bool)
    ensures
        r == (a@ == b@),
{
    let sa: String = a.to_owned();
    let sb: String = b.to_owned();
    sa == sb
}

/// Whether the character is an ASCII decimal digit.
pub open spec fn is_digit(c: char) -> bool {
    48 <= c as int <= 57
}

/// The numeric value of an ASCII decimal digit.
pub open spec fn digit_val(c: char) -> nat {
    (c as int - 48) as nat
}

/// Whether every character of the sequence is an ASCII decimal digit.
pub open spec fn all_digits(s: Seq<char>) -> bool {
    forall|i: int| 0 <= i < s.len() ==> is_digit(s[i])
}

/// The value of a sequence of decimal digits, most significant first.
pub open spec fn digits_value(s: Seq<char>) -> nat
    decreases s.len(),
{
    if s.len() == 0 {
        0
    } else {
        digits_value(s.drop_last()) * 10 + digit_val(s.last())
    }
}

/// What `str::parse::<u32>` accepts: an optional leading plus sign, then
/// one or more decimal digits whose value fits in 32 bits.
pub open spec fn spec_parse_u32(s: Seq<char>) -> Option<u32> {
    let body = if s.len() > 0 && s[0] == '+' {
        s.skip(1)
    } else {
        s
    };
    if body.len() > 0 && all_digits(body) && digits_value(body) <= u32::MAX {
        Some(digits_value(body) as u32)
    } else {
        None
    }
}

proof fn lemma_digits_value_prefix_le(s: Seq<char>, i: int)
    requires
        0 <= i <= s.len(),
    ensures
        digits_value(s.subrange(0, i)) <= digits_value(s),
    decreases s.len() - i,
{
    if i < s.len() {
        lemma_digits_value_prefix_le(s, i + 1);
        assert(s.subrange(0, i + 1).drop_last() =~= s.subrange(0, i));
        assert(s.subrange(0, i + 1).last() == s[i]);
        assert(digits_value(s.subrange(0, i)) <= digits_value(s.subrange(0, i + 1)));
    } else {
        assert(s.subrange(0, i) =~= s);
    }
}

/// Reads a non-negative 32-bit count from decimal text, exactly as
/// `str::parse::<u32>` would.
pub fn parse_u32(s: &str) -> (r: Option<u32>)
    ensures
        r == spec_parse_u32(s@),
{
    let len = s.unicode_len();
    let start: usize = if len > 0 && s.get_char(0) == '+' {
        1
    } else {
        0
    };
    let ghost body = if s@.len() > 0 && s@[0] == '+' { s@.skip(1) } else { s@ };
    if start >= len {
        return None;
    }
    let mut acc: u32 = 0;
    let mut i: usize = start;
    while i < len
        invariant
            start <= i <= len,
            len == s@.len(),
            start == 1 ==> len > 0 && s@[0] == '+',
            start == 0 ==> !(s@.len() > 0 && s@[0] == '+'),
            body == if s@.len() > 0 && s@[0] == '+' { s@.skip(1) } else { s@ },
            body.len() == len - start,
            forall|j: int| 0 <= j < body.len() ==> body[j] == s@[j + start],
            all_digits(body.subrange(0, i - start)),
            acc == digits_value(body.subrange(0, i - start)),
        decreases len - i,
    {
        let code = s.get_char(i) as u32;
        if code < 48 || code > 57 {
            assert(!is_digit(body[i - start]));
            return None;
        }
        let d: u32 = code - 48;
        proof {
            assert(body.subrange(0, i - start + 1).drop_last() =~= body.subrange(0, i - start));
            assert(body.subrange(0, i - start + 1).last() == body[i - start]);
        }
        if acc > (u32::MAX - d) / 10 {
            proof {
                assert(acc * 10 + d > u32::MAX) by (nonlinear_arith)
                    requires
                        acc > (u32::MAX - d) / 10,
                        d <= 9,
                ;
                assert(digits_value(body.subrange(0, i - start + 1)) > u32::MAX);
                lemma_digits_value_prefix_le(body, i - start + 1);
            }
            return None;
        }
        proof {
            assert(acc * 10 + d <= u32::MAX) by (nonlinear_arith)
                requires
                    acc <= (u32::MAX - d) / 10,
                    d <= 9,
            ;
        }
        acc = acc * 10 + d;
        i = i + 1;
    }
    proof {
        assert(body.subrange(0, (len - start) as int) =~= body);
    }
    Some(acc)
}

} // verus!
