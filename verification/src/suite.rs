//! The standard scenario table: every benchmark the harness runs, as data
//! — name, operation kind, pattern, corpus and inner repeat count — to be
//! consumed by [`crate::scenario::run_suite`] in one generic loop.
//!
//! The scenarios are listed in lexicographic name order — the order every
//! table and export uses anyway — which lets each addition prove its name
//! new, so the whole table provably holds no duplicate name.

use vstd::prelude::*;
use vstd::string::StringExecFns;
use crate::corpus::get_email_long;
use crate::corpus::get_long_text;
use crate::corpus::get_medium_text;
use crate::corpus::email_text;
use crate::corpus::make_mixed_content_text;
use crate::corpus::make_phone_test_data;
use crate::corpus::make_test_string;
use crate::corpus::short_text;
use crate::order::lex_lt;
use crate::order::lemma_lex_irreflexive;
use crate::order::lemma_lex_transitive;
use crate::scenario::OperationKind;
use crate::scenario::Scenario;
use crate::scenario::distinct_names;

verus! {

/// The scenario names are strictly increasing.
spec fn names_sorted(s: Seq<Scenario>) -> bool {
    forall|i: int, j: int|
        0 <= i < j < s.len() ==> lex_lt((#[trigger] s[i]).name@, (#[trigger] s[j]).name@)
}

/// Appends one scenario whose name comes strictly after every present
/// name, keeping the inner repeat count in a range the default timer
/// configuration can always normalize without overflow.
fn push_scenario(
    v: &mut Vec<Scenario>,
    name: &str,
    kind: OperationKind,
    pattern: &str,
    text: String,
    inner: u64,
)
    requires
        1 <= inner <= 2000,
        names_sorted(old(v)@),
        old(v)@.len() > 0 ==> lex_lt(old(v)@.last().name@, name@),
        forall|i: int|
            0 <= i < old(v)@.len() ==> 1 <= (#[trigger] old(v)@[i]).inner_iterations <= 2000,
    ensures
        final(v)@.len() == old(v)@.len() + 1,
        names_sorted(final(v)@),
        final(v)@.last().name@ == name@,
        forall|i: int|
            0 <= i < final(v)@.len() ==> 1 <= (#[trigger] final(v)@[i]).inner_iterations <= 2000,
{
    let sc = Scenario {
        name: name.to_owned(),
        kind,
        pattern: pattern.to_owned(),
        text,
        inner_iterations: inner,
    };
    v.push(sc);
    proof {
        let last = old(v)@.len() as int;
        assert forall|i: int, j: int|
            0 <= i < j < final(v)@.len() implies lex_lt(
            (#[trigger] final(v)@[i]).name@,
            (#[trigger] final(v)@[j]).name@,
        ) by {
            if j < last {
            } else if i < last - 1 {
                lemma_lex_transitive(
                    final(v)@[i].name@,
                    old(v)@.last().name@,
                    name@,
                );
            }
        }
        assert forall|i: int|
            0 <= i < final(v)@.len() implies 1 <= (#[trigger] final(v)@[i]).inner_iterations
            <= 2000 by {
            if i < last {
                assert(final(v)@[i] == old(v)@[i]);
            }
        }
    }
}

/// Builds `a ++ b ++ c`.
fn join3(a: &str, b: &str, c: &str) -> (r: String)
    ensures
        r@ == a@ + b@ + c@,
{
    let mut s = String::new();
    s.append(a);
    s.append(b);
    s.append(c);
    proof {
        assert(s@ =~= a@ + b@ + c@);
    }
    s
}

/// The whole fixed benchmark suite, in lexicographic name order.
#[verifier::rlimit(100)]
pub fn standard_suite() -> (r: Vec<Scenario>)
    ensures
        r@.len() == 38,
        distinct_names(r@),
        forall|i: int|
            0 <= i < r@.len() ==> 1 <= (#[trigger] r@[i]).inner_iterations <= 2000,
{
    let alphabet = "abcdefghijklmnopqrstuvwxyz";
    let text_10000 = make_test_string(10000, alphabet);
    let text_100000 = make_test_string(100000, alphabet);
    let text_range_10000 = make_test_string(10000, "abc123XYZ");
    let text_group_10000 = make_test_string(10000, "abcabcabc");

    let base_text = make_test_string(2000, alphabet);
    let emails = " user@example.com more text john@test.org ";
    let email_mid = join3(base_text.as_str(), " ", emails);
    let email_mid2 = join3(email_mid.as_str(), " ", base_text.as_str());
    let email_mid3 = join3(email_mid2.as_str(), " ", emails);
    let email_text_full = join3(email_mid3.as_str(), " ", base_text.as_str());

    let base_number_text = make_test_string(20000, "abc def ghi ");
    let number_mid = join3(base_number_text.as_str(), " 123 price $456.78 quantity 789 ", "");
    let number_text = join3(number_mid.as_str(), base_number_text.as_str(), "");

    let large_mixed_text = make_mixed_content_text(100000);
    let xlarge_mixed_text = make_mixed_content_text(500000);

    let medium_text = get_medium_text();
    let long_text = get_long_text();
    let email_long = get_email_long();
    let phone_text = make_phone_test_data(1000);

    let hello_short = join3(text_10000.as_str(), " hello world ", text_10000.as_str());
    let hello_long = join3(text_100000.as_str(), " hello world ", text_10000.as_str());

    let mut v: Vec<Scenario> = Vec::new();

    push_scenario(&mut v, "alternation_common_prefix", OperationKind::FindAll, "(hello|help|helicopter)", medium_text.clone(), 1);
    proof {
        reveal_strlit("alternation_common_prefix");
        reveal_strlit("alternation_simple");
        assert(lex_lt("alternation_common_prefix"@, "alternation_simple"@)) by {
            reveal_with_fuel(lex_lt, 30);
        }
    }
    push_scenario(&mut v, "alternation_simple", OperationKind::Search, "a|b|c", text_10000.clone(), 1000);
    proof {
        reveal_strlit("alternation_simple");
        reveal_strlit("alternation_words");
        assert(lex_lt("alternation_simple"@, "alternation_words"@)) by {
            reveal_with_fuel(lex_lt, 30);
        }
    }
    push_scenario(&mut v, "alternation_words", OperationKind::Search, "abc|def|ghi", text_10000.clone(), 1000);
    proof {
        reveal_strlit("alternation_words");
        reveal_strlit("anchor_end");
        assert(lex_lt("alternation_words"@, "anchor_end"@)) by {
            reveal_with_fuel(lex_lt, 30);
        }
    }
    push_scenario(&mut v, "anchor_end", OperationKind::IsMatch, "xyz$", text_10000.clone(), 2000);
    proof {
        reveal_strlit("anchor_end");
        reveal_strlit("anchor_start");
        assert(lex_lt("anchor_end"@, "anchor_start"@)) by {
            reveal_with_fuel(lex_lt, 30);
        }
    }
    push_scenario(&mut v, "anchor_start", OperationKind::IsMatch, "^abc", text_10000.clone(), 2000);
    proof {
        reveal_strlit("anchor_start");
        reveal_strlit("complex_email_extraction");
        assert(lex_lt("anchor_start"@, "complex_email_extraction"@)) by {
            reveal_with_fuel(lex_lt, 30);
        }
    }
    push_scenario(&mut v, "complex_email_extraction", OperationKind::FindAll, "[a-zA-Z0-9._%+-]+@[a-zA-Z0-9.-]+\\.[a-zA-Z]{2,}", email_text_full, 40);
    proof {
        reveal_strlit("complex_email_extraction");
        reveal_strlit("complex_group_5_children");
        assert(lex_lt("complex_email_extraction"@, "complex_group_5_children"@)) by {
            reveal_with_fuel(lex_lt, 30);
        }
    }
    push_scenario(&mut v, "complex_group_5_children", OperationKind::Search, "(hello|world|test|demo|sample)[0-9]{3}[a-z]{2}", "Found: hello123ab, world456cd, test789ef, demo012gh, sample345ij in the data".to_owned(), 1000);
    proof {
        reveal_strlit("complex_group_5_children");
        reveal_strlit("complex_number_extraction");
        assert(lex_lt("complex_group_5_children"@, "complex_number_extraction"@)) by {
            reveal_with_fuel(lex_lt, 30);
        }
    }
    push_scenario(&mut v, "complex_number_extraction", OperationKind::FindAll, "\\d+\\.?\\d*", number_text, 500);
    proof {
        reveal_strlit("complex_number_extraction");
        reveal_strlit("deep_nested_groups_depth4");
        assert(lex_lt("complex_number_extraction"@, "deep_nested_groups_depth4"@)) by {
            reveal_with_fuel(lex_lt, 30);
        }
    }
    push_scenario(&mut v, "deep_nested_groups_depth4", OperationKind::Search, "(?:(?:(?:a|b)|(?:c|d))|(?:(?:e|f)|(?:g|h)))", "Testing deep nested patterns with abcdefgh characters".to_owned(), 1000);
    proof {
        reveal_strlit("deep_nested_groups_depth4");
        reveal_strlit("flexible_phone");
        assert(lex_lt("deep_nested_groups_depth4"@, "flexible_phone"@)) by {
            reveal_with_fuel(lex_lt, 30);
        }
    }
    push_scenario(&mut v, "flexible_phone", OperationKind::FindAll, "\\(?\\d{3}\\)?[\\s.-]?\\d{3}[\\s.-]?\\d{4}", phone_text.clone(), 100);
    proof {
        reveal_strlit("flexible_phone");
        reveal_strlit("group_alternation");
        assert(lex_lt("flexible_phone"@, "group_alternation"@)) by {
            reveal_with_fuel(lex_lt, 30);
        }
    }
    push_scenario(&mut v, "group_alternation", OperationKind::Search, "(a|b)*", text_group_10000.clone(), 1000);
    proof {
        reveal_strlit("group_alternation");
        reveal_strlit("group_quantified");
        assert(lex_lt("group_alternation"@, "group_quantified"@)) by {
            reveal_with_fuel(lex_lt, 30);
        }
    }
    push_scenario(&mut v, "group_quantified", OperationKind::Search, "(abc)+", text_group_10000.clone(), 1000);
    proof {
        reveal_strlit("group_quantified");
        reveal_strlit("large_alternation_8_branches");
        assert(lex_lt("group_quantified"@, "large_alternation_8_branches"@)) by {
            reveal_with_fuel(lex_lt, 30);
        }
    }
    push_scenario(&mut v, "large_alternation_8_branches", OperationKind::Search, "(apple|banana|cherry|date|elderberry|fig|grape|honey)", "I love eating apple and banana and cherry and date and elderberry and fig and grape with honey".to_owned(), 1000);
    proof {
        reveal_strlit("large_alternation_8_branches");
        reveal_strlit("literal_heavy_alternation");
        assert(lex_lt("large_alternation_8_branches"@, "literal_heavy_alternation"@)) by {
            reveal_with_fuel(lex_lt, 30);
        }
    }
    push_scenario(&mut v, "literal_heavy_alternation", OperationKind::Search, "(user123|admin456|guest789|root000|test111|demo222|sample333|client444)", "Login attempts: user123 failed, admin456 success, guest789 failed, root000 success".to_owned(), 1000);
    proof {
        reveal_strlit("literal_heavy_alternation");
        reveal_strlit("literal_match_long");
        assert(lex_lt("literal_heavy_alternation"@, "literal_match_long"@)) by {
            reveal_with_fuel(lex_lt, 30);
        }
    }
    push_scenario(&mut v, "literal_match_long", OperationKind::Search, "hello", hello_long, 2000);
    proof {
        reveal_strlit("literal_match_long");
        reveal_strlit("literal_match_short");
        assert(lex_lt("literal_match_long"@, "literal_match_short"@)) by {
            reveal_with_fuel(lex_lt, 30);
        }
    }
    push_scenario(&mut v, "literal_match_short", OperationKind::Search, "hello", hello_short, 2000);
    proof {
        reveal_strlit("literal_match_short");
        reveal_strlit("literal_prefix_long");
        assert(lex_lt("literal_match_short"@, "literal_prefix_long"@)) by {
            reveal_with_fuel(lex_lt, 30);
        }
    }
    push_scenario(&mut v, "literal_prefix_long", OperationKind::FindAll, "hello.*", long_text, 1);
    proof {
        reveal_strlit("literal_prefix_long");
        reveal_strlit("literal_prefix_medium");
        assert(lex_lt("literal_prefix_long"@, "literal_prefix_medium"@)) by {
            reveal_with_fuel(lex_lt, 30);
        }
    }
    push_scenario(&mut v, "literal_prefix_medium", OperationKind::FindAll, "hello.*", medium_text.clone(), 1);
    proof {
        reveal_strlit("literal_prefix_medium");
        reveal_strlit("literal_prefix_short");
        assert(lex_lt("literal_prefix_medium"@, "literal_prefix_short"@)) by {
            reveal_with_fuel(lex_lt, 30);
        }
    }
    push_scenario(&mut v, "literal_prefix_short", OperationKind::FindAll, "hello.*world", short_text().to_owned(), 1);
    proof {
        reveal_strlit("literal_prefix_short");
        reveal_strlit("match_all_pattern");
        assert(lex_lt("literal_prefix_short"@, "match_all_pattern"@)) by {
            reveal_with_fuel(lex_lt, 30);
        }
    }
    push_scenario(&mut v, "match_all_pattern", OperationKind::FindAll, "[a-z]+", text_10000.clone(), 200);
    proof {
        reveal_strlit("match_all_pattern");
        reveal_strlit("match_all_simple");
        assert(lex_lt("match_all_pattern"@, "match_all_simple"@)) by {
            reveal_with_fuel(lex_lt, 30);
        }
    }
    push_scenario(&mut v, "match_all_simple", OperationKind::FindAll, "a", text_10000.clone(), 200);
    proof {
        reveal_strlit("match_all_simple");
        reveal_strlit("multi_format_phone");
        assert(lex_lt("match_all_simple"@, "multi_format_phone"@)) by {
            reveal_with_fuel(lex_lt, 30);
        }
    }
    push_scenario(&mut v, "multi_format_phone", OperationKind::FindAll, "\\(?\\d{3}\\)?[\\s.-]\\d{3}[\\s.-]\\d{4}|\\d{3}-\\d{3}-\\d{4}|\\d{10}", phone_text.clone(), 50);
    proof {
        reveal_strlit("multi_format_phone");
        reveal_strlit("no_literal_baseline");
        assert(lex_lt("multi_format_phone"@, "no_literal_baseline"@)) by {
            reveal_with_fuel(lex_lt, 30);
        }
    }
    push_scenario(&mut v, "no_literal_baseline", OperationKind::FindAll, "[a-z]+", medium_text.clone(), 1);
    proof {
        reveal_strlit("no_literal_baseline");
        reveal_strlit("phone_validation");
        assert(lex_lt("no_literal_baseline"@, "phone_validation"@)) by {
            reveal_with_fuel(lex_lt, 30);
        }
    }
    push_scenario(&mut v, "phone_validation", OperationKind::IsMatch, "^\\+?1?[\\s.-]?\\(?([2-9]\\d{2})\\)?[\\s.-]?([2-9]\\d{2})[\\s.-]?(\\d{4})$", "555-123-4567".to_owned(), 500);
    proof {
        reveal_strlit("phone_validation");
        reveal_strlit("quantifier_one_or_more");
        assert(lex_lt("phone_validation"@, "quantifier_one_or_more"@)) by {
            reveal_with_fuel(lex_lt, 30);
        }
    }
    push_scenario(&mut v, "quantifier_one_or_more", OperationKind::IsMatch, "a+", text_10000.clone(), 1000);
    proof {
        reveal_strlit("quantifier_one_or_more");
        reveal_strlit("quantifier_zero_or_more");
        assert(lex_lt("quantifier_one_or_more"@, "quantifier_zero_or_more"@)) by {
            reveal_with_fuel(lex_lt, 30);
        }
    }
    push_scenario(&mut v, "quantifier_zero_or_more", OperationKind::IsMatch, "a*", text_10000.clone(), 1000);
    proof {
        reveal_strlit("quantifier_zero_or_more");
        reveal_strlit("quantifier_zero_or_one");
        assert(lex_lt("quantifier_zero_or_more"@, "quantifier_zero_or_one"@)) by {
            reveal_with_fuel(lex_lt, 30);
        }
    }
    push_scenario(&mut v, "quantifier_zero_or_one", OperationKind::IsMatch, "a?", text_10000.clone(), 1000);
    proof {
        reveal_strlit("quantifier_zero_or_one");
        reveal_strlit("range_alphanumeric");
        assert(lex_lt("quantifier_zero_or_one"@, "range_alphanumeric"@)) by {
            reveal_with_fuel(lex_lt, 30);
        }
    }
    push_scenario(&mut v, "range_alphanumeric", OperationKind::IsMatch, "[a-zA-Z0-9]+", text_range_10000.clone(), 1000);
    proof {
        reveal_strlit("range_alphanumeric");
        reveal_strlit("range_digits");
        assert(lex_lt("range_alphanumeric"@, "range_digits"@)) by {
            reveal_with_fuel(lex_lt, 30);
        }
    }
    push_scenario(&mut v, "range_digits", OperationKind::IsMatch, "[0-9]+", text_range_10000.clone(), 1000);
    proof {
        reveal_strlit("range_digits");
        reveal_strlit("range_lowercase");
        assert(lex_lt("range_digits"@, "range_lowercase"@)) by {
            reveal_with_fuel(lex_lt, 30);
        }
    }
    push_scenario(&mut v, "range_lowercase", OperationKind::IsMatch, "[a-z]+", text_range_10000.clone(), 1000);
    proof {
        reveal_strlit("range_lowercase");
        reveal_strlit("required_literal_long");
        assert(lex_lt("range_lowercase"@, "required_literal_long"@)) by {
            reveal_with_fuel(lex_lt, 30);
        }
    }
    push_scenario(&mut v, "required_literal_long", OperationKind::FindAll, ".*@example\\.com", email_long, 1);
    proof {
        reveal_strlit("required_literal_long");
        reveal_strlit("required_literal_short");
        assert(lex_lt("required_literal_long"@, "required_literal_short"@)) by {
            reveal_with_fuel(lex_lt, 30);
        }
    }
    push_scenario(&mut v, "required_literal_short", OperationKind::FindAll, ".*@example\\.com", email_text().to_owned(), 1);
    proof {
        reveal_strlit("required_literal_short");
        reveal_strlit("simd_alphanumeric_large");
        assert(lex_lt("required_literal_short"@, "simd_alphanumeric_large"@)) by {
            reveal_with_fuel(lex_lt, 30);
        }
    }
    push_scenario(&mut v, "simd_alphanumeric_large", OperationKind::IsMatch, "[a-zA-Z0-9]+", large_mixed_text.clone(), 200);
    proof {
        reveal_strlit("simd_alphanumeric_large");
        reveal_strlit("simd_alphanumeric_xlarge");
        assert(lex_lt("simd_alphanumeric_large"@, "simd_alphanumeric_xlarge"@)) by {
            reveal_with_fuel(lex_lt, 30);
        }
    }
    push_scenario(&mut v, "simd_alphanumeric_xlarge", OperationKind::IsMatch, "[a-zA-Z0-9]+", xlarge_mixed_text, 200);
    proof {
        reveal_strlit("simd_alphanumeric_xlarge");
        reveal_strlit("simd_multi_char_class");
        assert(lex_lt("simd_alphanumeric_xlarge"@, "simd_multi_char_class"@)) by {
            reveal_with_fuel(lex_lt, 30);
        }
    }
    push_scenario(&mut v, "simd_multi_char_class", OperationKind::IsMatch, "[a-z]+[0-9]+", large_mixed_text.clone(), 200);
    proof {
        reveal_strlit("simd_multi_char_class");
        reveal_strlit("simd_negated_alphanumeric");
        assert(lex_lt("simd_multi_char_class"@, "simd_negated_alphanumeric"@)) by {
            reveal_with_fuel(lex_lt, 30);
        }
    }
    push_scenario(&mut v, "simd_negated_alphanumeric", OperationKind::IsMatch, "[^a-zA-Z0-9]+", large_mixed_text.clone(), 200);
    proof {
        reveal_strlit("simd_negated_alphanumeric");
        reveal_strlit("simple_phone");
        assert(lex_lt("simd_negated_alphanumeric"@, "simple_phone"@)) by {
            reveal_with_fuel(lex_lt, 30);
        }
    }
    push_scenario(&mut v, "simple_phone", OperationKind::FindAll, "\\d{3}-\\d{3}-\\d{4}", phone_text.clone(), 100);
    proof {
        reveal_strlit("simple_phone");
        reveal_strlit("wildcard_match_any");
        assert(lex_lt("simple_phone"@, "wildcard_match_any"@)) by {
            reveal_with_fuel(lex_lt, 30);
        }
    }
    push_scenario(&mut v, "wildcard_match_any", OperationKind::IsMatch, ".*", text_10000.clone(), 1000);

    proof {
        assert forall|i: int, j: int|
            0 <= i < j < v@.len() implies (#[trigger] v@[i]).name@ != (#[trigger] v@[j]).name@ by {
            if v@[i].name@ == v@[j].name@ {
                lemma_lex_irreflexive(v@[i].name@);
            }
        }
    }
    v
}

} // verus!
