//! Deterministic corpus generation: fixed-length texts built by repeating a
//! short motif, truncated to the exact requested length.

use vstd::prelude::*;
use vstd::arithmetic::div_mod::lemma_fundamental_div_mod;
use vstd::arithmetic::div_mod::lemma_fundamental_div_mod_converse;
use vstd::string::StrSliceExecFns;
use vstd::string::StringExecFns;

verus! {

/// `motif` concatenated `n` times.
pub open spec fn repeat_seq(motif: Seq<char>, n: nat) -> Seq<char>
    decreases n,
{
    if n == 0 {
        Seq::empty()
    } else {
        repeat_seq(motif, (n - 1) as nat) + motif
    }
}

pub proof fn lemma_repeat_seq_len(motif: Seq<char>, n: nat)
    ensures
        repeat_seq(motif, n).len() == n * motif.len(),
    decreases n,
{
    if n == 0 {
    } else {
        let m = (n - 1) as nat;
        lemma_repeat_seq_len(motif, m);
        assert(repeat_seq(motif, n).len() == m * motif.len() + motif.len());
        assert(m * motif.len() + motif.len() == n * motif.len()) by (nonlinear_arith)
            requires m + 1 == n;
    }
}

/// The text of exactly `length` characters obtained by repeating `motif`:
/// whole copies followed by a prefix of `motif` that fills the remainder.
pub open spec fn repeated_to_length(motif: Seq<char>, length: nat) -> Seq<char>
    recommends
        motif.len() > 0,
{
    repeat_seq(motif, length / motif.len()) + motif.subrange(0, (length % motif.len()) as int)
}

pub proof fn lemma_repeated_to_length_len(motif: Seq<char>, length: nat)
    requires
        motif.len() > 0,
    ensures
        repeated_to_length(motif, length).len() == length,
{
    lemma_repeat_seq_len(motif, length / motif.len());
    lemma_fundamental_div_mod(length as int, motif.len() as int);
}

pub proof fn lemma_repeat_seq_index(motif: Seq<char>, n: nat, j: int)
    requires
        motif.len() > 0,
        0 <= j < n * motif.len(),
    ensures
        repeat_seq(motif, n)[j] == motif[j % motif.len() as int],
    decreases n,
{
    let plen = motif.len() as int;
    lemma_repeat_seq_len(motif, n);
    lemma_repeat_seq_len(motif, (n - 1) as nat);
    if j < (n - 1) * plen {
        lemma_repeat_seq_index(motif, (n - 1) as nat, j);
    } else {
        let r = j - (n - 1) * plen;
        assert(repeat_seq(motif, n)[j] == motif[r]);
        lemma_fundamental_div_mod_converse(j, plen, (n - 1) as int, r);
    }
}

/// Character by character, the generated text repeats the motif: position
/// `j` holds the motif's character at `j` modulo the motif length.
pub proof fn lemma_repeated_to_length_index(motif: Seq<char>, length: nat, j: int)
    requires
        motif.len() > 0,
        0 <= j < length,
    ensures
        repeated_to_length(motif, length)[j] == motif[j % motif.len() as int],
{
    let plen = motif.len() as int;
    let full = (length / motif.len()) as int;
    lemma_repeat_seq_len(motif, length / motif.len());
    lemma_fundamental_div_mod(length as int, plen);
    if j < full * plen {
        lemma_repeat_seq_index(motif, length / motif.len(), j);
    } else {
        let r = j - full * plen;
        assert(repeated_to_length(motif, length)[j] == motif.subrange(
            0,
            (length % motif.len()) as int,
        )[r]);
        lemma_fundamental_div_mod_converse(j, plen, full, r);
    }
}

/// Builds a string of exactly `length` characters by concatenating whole
/// copies of `pattern` and appending a prefix-truncated final copy; the
/// output is empty when `length` is zero or `pattern` is empty.
///
/// The result is a pure function of `(length, pattern)`, so identical inputs
/// always yield identical output.
pub fn make_test_string(length: usize, pattern: &str) -> (r: String)
    ensures
        length == 0 || pattern@.len() == 0 ==> r@ == Seq::<char>::empty(),
        length > 0 && pattern@.len() > 0 ==> r@ == repeated_to_length(pattern@, length as nat),
        length > 0 && pattern@.len() > 0 ==> r@.len() == length,
{
    if length == 0 {
        return String::new();
    }
    let plen = pattern.unicode_len();
    if plen == 0 {
        return String::new();
    }
    let full_repeats = length / plen;
    let remainder = length % plen;

    let mut result = String::new();
    let mut i: usize = 0;
    while i < full_repeats
        invariant
            i <= full_repeats,
            result@ == repeat_seq(pattern@, i as nat),
        decreases full_repeats - i,
    {
        result.append(pattern);
        i = i + 1;
    }
    if remainder > 0 {
        let tail = pattern.substring_char(0, remainder);
        result.append(tail);
    }
    proof {
        if remainder == 0 {
            assert(pattern@.subrange(0, 0) =~= Seq::<char>::empty());
            assert(result@ =~= repeated_to_length(pattern@, length as nat));
        }
        lemma_repeated_to_length_len(pattern@, length as nat);
    }
    result
}

/// The fixed motif behind [`make_mixed_content_text`]: letters, digits,
/// punctuation and an embedded email-like token, to exercise mixed-class
/// matching.
pub open spec fn mixed_motif() -> Seq<char> {
    "User123 sent email to user456@domain.com with ID abc789! Status: ACTIVE_2024 (priority=HIGH). "@
}

/// Builds a string of exactly `length` characters by repeating the fixed
/// mixed-content motif, truncated to the exact length; empty when `length`
/// is zero.
pub fn make_mixed_content_text(length: usize) -> (r: String)
    ensures
        length == 0 ==> r@ == Seq::<char>::empty(),
        length > 0 ==> r@ == repeated_to_length(mixed_motif(), length as nat),
        length > 0 ==> r@.len() == length,
{
    let base_pattern = "User123 sent email to user456@domain.com with ID abc789! Status: ACTIVE_2024 (priority=HIGH). ";
    proof {
        reveal_strlit(
            "User123 sent email to user456@domain.com with ID abc789! Status: ACTIVE_2024 (priority=HIGH). ",
        );
    }
    make_test_string(length, base_pattern)
}

/// A short text with several occurrences of a common word.
pub open spec fn short_text_view() -> Seq<char> {
    "hello world this is a test with hello again and hello there"@
}

/// A short text with several email addresses.
pub open spec fn email_text_view() -> Seq<char> {
    "test@example.com user@test.org admin@example.com support@example.com no-reply@example.com"@
}

pub fn short_text() -> (r: &'static str)
    ensures
        r@ == short_text_view(),
{
    "hello world this is a test with hello again and hello there"
}

pub fn email_text() -> (r: &'static str)
    ensures
        r@ == email_text_view(),
{
    "test@example.com user@test.org admin@example.com support@example.com no-reply@example.com"
}

/// `s` concatenated with itself `n` times.
pub fn repeat_copies(s: &str, n: usize) -> (r: String)
    ensures
        r@ == repeat_seq(s@, n as nat),
{
    let mut result = String::new();
    let mut i: usize = 0;
    while i < n
        invariant
            i <= n,
            result@ == repeat_seq(s@, i as nat),
        decreases n - i,
    {
        result.append(s);
        i = i + 1;
    }
    result
}

pub fn get_medium_text() -> (r: String)
    ensures
        r@ == repeat_seq(short_text_view(), 10),
{
    repeat_copies(short_text(), 10)
}

pub fn get_long_text() -> (r: String)
    ensures
        r@ == repeat_seq(short_text_view(), 100),
{
    repeat_copies(short_text(), 100)
}

pub fn get_email_long() -> (r: String)
    ensures
        r@ == repeat_seq(email_text_view(), 5),
{
    repeat_copies(email_text(), 5)
}

/// The phone-number spelling used for the block at index `i`, cycling
/// through eight common formats.
pub open spec fn phone_pattern_view(k: nat) -> Seq<char> {
    if k == 0 {
        "555-123-4567"@
    } else if k == 1 {
        "(555) 123-4567"@
    } else if k == 2 {
        "555.123.4567"@
    } else if k == 3 {
        "5551234567"@
    } else if k == 4 {
        "+1-555-123-4567"@
    } else if k == 5 {
        "1-555-123-4568"@
    } else if k == 6 {
        "(555)123-4569"@
    } else {
        "555 123 4570"@
    }
}

/// One filler-phone-filler block of the phone test data.
pub open spec fn phone_block(i: nat) -> Seq<char> {
    " Contact us at "@ + phone_pattern_view(i % 8) + " or email support@company.com for assistance. "@
}

/// The first `n` blocks of the phone test data, in order.
pub open spec fn phone_data(n: nat) -> Seq<char>
    decreases n,
{
    if n == 0 {
        Seq::empty()
    } else {
        phone_data((n - 1) as nat) + phone_block((n - 1) as nat)
    }
}

fn phone_pattern(k: usize) -> (r: &'static str)
    requires
        k < 8,
    ensures
        r@ == phone_pattern_view(k as nat),
{
    if k == 0 {
        "555-123-4567"
    } else if k == 1 {
        "(555) 123-4567"
    } else if k == 2 {
        "555.123.4567"
    } else if k == 3 {
        "5551234567"
    } else if k == 4 {
        "+1-555-123-4567"
    } else if k == 5 {
        "1-555-123-4568"
    } else if k == 6 {
        "(555)123-4569"
    } else {
        "555 123 4570"
    }
}

/// Builds text containing `num_phones` phone numbers, cycling through eight
/// formats, each surrounded by fixed filler text.
pub fn make_phone_test_data(num_phones: usize) -> (r: String)
    ensures
        r@ == phone_data(num_phones as nat),
{
    let mut result = String::new();
    let mut i: usize = 0;
    while i < num_phones
        invariant
            i <= num_phones,
            result@ == phone_data(i as nat),
        decreases num_phones - i,
    {
        result.append(" Contact us at ");
        result.append(phone_pattern(i % 8));
        result.append(" or email support@company.com for assistance. ");
        i = i + 1;
    }
    result
}

} // verus!
