use vstd::prelude::*;
use vstd::string::StrSliceExecFns;

use crate::errors::GprError;

verus! {

/// The names of the registry's operations, in canonical display order.
pub open spec fn registry_names() -> Seq<Seq<char>> {
    seq!["abslog"@, "siglog"@, "average_traces"@, "correct_topography"@]
}

/// The descriptions of the registry's operations, in the same order as
/// their names.
pub open spec fn registry_descriptions() -> Seq<Seq<char>> {
    seq![
        "Take absolute values and compress them with an adaptive log10"@,
        "Compress magnitudes with log10 above a floor, keeping the sign"@,
        "Average consecutive traces in blocks of the given window"@,
        "Adjust sample elevations using surface elevation data"@,
    ]
}

/// The catalog of available processing steps: name and human-readable
/// description, in canonical display order.  The order is for listings
/// only; execution order is the step list's.
pub fn all_available_steps() -> (r: Vec<(&'static str, &'static str)>)
    ensures
        r@.len() == registry_names().len(),
        forall|i: int| 0 <= i < r@.len() ==> (#[trigger] r@[i].0)@ == registry_names()[i],
        forall|i: int| 0 <= i < r@.len() ==> (#[trigger] r@[i].1)@ == registry_descriptions()[i],
{
    let mut r: Vec<(&'static str, &'static str)> = Vec::new();
    r.push(("abslog", "Take absolute values and compress them with an adaptive log10"));
    r.push(("siglog", "Compress magnitudes with log10 above a floor, keeping the sign"));
    r.push(("average_traces", "Average consecutive traces in blocks of the given window"));
    r.push(("correct_topography", "Adjust sample elevations using surface elevation data"));
    r
}

/// The curated default processing profile, in execution order.
pub open spec fn default_profile_spec() -> Seq<Seq<char>> {
    seq!["abslog"@, "average_traces:2"@]
}

/// The default processing profile, applied when the user asks for it
/// instead of giving an explicit step list.
pub fn default_processing_profile() -> (r: Vec<String>)
    ensures
        r.deep_view() == default_profile_spec(),
{
    let mut r: Vec<String> = Vec::new();
    r.push("abslog".to_owned());
    r.push("average_traces:2".to_owned());
    proof {
        assert(r.deep_view() =~= default_profile_spec());
    }
    r
}

/// `needle` occurs in `hay` as a contiguous run of characters.
pub open spec fn contains_seq(hay: Seq<char>, needle: Seq<char>) -> bool {
    exists|k: int|
        0 <= k && k + needle.len() <= hay.len() && #[trigger] hay.subrange(k, k + needle.len())
            == needle
}

/// A step token is accepted exactly when some registry name occurs inside
/// it; this lets a parameterized token validate against the bare name it
/// carries parameters for.
pub open spec fn token_valid(token: Seq<char>) -> bool {
    exists|j: int|
        0 <= j < registry_names().len() && contains_seq(token, #[trigger] registry_names()[j])
}

/// Whether `needle` matches the characters of `hay` starting at `k`.
fn matches_at(hay: &str, needle: &str, k: usize) -> (b: bool)
    requires
        k + needle@.len() <= hay@.len(),
    ensures
        b == (hay@.subrange(k as int, k as int + needle@.len()) == needle@),
{
    let hlen = hay.unicode_len();
    let nlen = needle.unicode_len();
    let mut j: usize = 0;
    while j < nlen
        invariant
            nlen == needle@.len(),
            hlen == hay@.len(),
            k + nlen <= hlen,
            j <= nlen,
            forall|t: int| 0 <= t < j ==> hay@[k + t] == #[trigger] needle@[t],
        decreases nlen - j,
    {
        if hay.get_char(k + j) != needle.get_char(j) {
            proof {
                assert(hay@.subrange(k as int, k as int + nlen as int)[j as int] == hay@[k + j]);
                assert(hay@.subrange(k as int, k as int + nlen as int) != needle@);
            }
            return false;
        }
        j = j + 1;
    }
    proof {
        assert forall|t: int| 0 <= t < nlen implies hay@.subrange(
            k as int,
            k as int + nlen as int,
        )[t] == needle@[t] by {
            assert(hay@[k + t] == needle@[t]);
        }
        assert(hay@.subrange(k as int, k as int + nlen as int) =~= needle@);
    }
    true
}

/// Whether `needle` occurs anywhere in `hay`.
fn contains_sub(hay: &str, needle: &str) -> (b: bool)
    ensures
        b == contains_seq(hay@, needle@),
{
    let hlen = hay.unicode_len();
    let nlen = needle.unicode_len();
    if nlen > hlen {
        return false;
    }
    if nlen == 0 {
        proof {
            assert(hay@.subrange(0, 0 + needle@.len() as int) =~= needle@);
        }
        return true;
    }
    let mut k: usize = 0;
    while k <= hlen - nlen
        invariant
            hlen == hay@.len(),
            nlen == needle@.len(),
            1 <= nlen <= hlen,
            k <= hlen - nlen + 1,
            forall|k2: int|
                0 <= k2 < k ==> #[trigger] hay@.subrange(k2, k2 + needle@.len()) != needle@,
        decreases hlen - nlen + 1 - k,
    {
        if matches_at(hay, needle, k) {
            return true;
        }
        k = k + 1;
    }
    false
}

/// Every token of a list matches some registry name.
pub open spec fn all_tokens_valid(tokens: Seq<Seq<char>>) -> bool {
    forall|i: int| 0 <= i < tokens.len() ==> #[trigger] token_valid(tokens[i])
}

/// Whether a step token matches some registry name.
pub fn token_is_valid(token: &str) -> (b: bool)
    ensures
        b == token_valid(token@),
{
    let catalog = all_available_steps();
    let mut j: usize = 0;
    while j < catalog.len()
        invariant
            catalog@.len() == registry_names().len(),
            forall|t: int|
                0 <= t < catalog@.len() ==> (#[trigger] catalog@[t].0)@ == registry_names()[t],
            j <= catalog@.len(),
            forall|t: int| 0 <= t < j ==> !contains_seq(token@, #[trigger] registry_names()[t]),
        decreases catalog@.len() - j,
    {
        let pair = catalog[j];
        if contains_sub(token, pair.0) {
            return true;
        }
        j = j + 1;
    }
    false
}

/// Checks every step token of a list against the registry.  The whole
/// list is rejected on the first token that matches no registry name, so
/// a partially valid list is never executed.
pub fn validate_steps(steps: &Vec<String>) -> (r: Result<(), GprError>)
    ensures
        r is Ok <==> (forall|i: int| 0 <= i < steps@.len() ==> #[trigger] token_valid(steps@[i]@)),
        r matches Err(e) ==> (e matches GprError::UnrecognizedStep { token } && exists|i: int|
            0 <= i < steps@.len() && !(#[trigger] token_valid(steps@[i]@)) && token@ == steps@[i]@
                && (forall|k: int| 0 <= k < i ==> #[trigger] token_valid(steps@[k]@))),
{
    let mut i: usize = 0;
    while i < steps.len()
        invariant
            i <= steps@.len(),
            forall|k: int| 0 <= k < i ==> #[trigger] token_valid(steps@[k]@),
        decreases steps@.len() - i,
    {
        let token: &String = &steps[i];
        if !token_is_valid(token.as_str()) {
            return Err(GprError::UnrecognizedStep { token: token.clone() });
        }
        i = i + 1;
    }
    Ok(())
}

/// The characters that separate step tokens: the inline form separates
/// tokens by commas, the step-file form by line breaks.
pub open spec fn is_sep(c: char) -> bool {
    c == ',' || c == '\n'
}

/// The step tokens of a step-list string: its maximal separator-free
/// runs of characters, in order, empty runs dropped.
pub open spec fn step_tokens(s: Seq<char>) -> Seq<Seq<char>>
    decreases s.len(),
{
    if s.len() == 0 {
        Seq::empty()
    } else if is_sep(s[0]) {
        step_tokens(s.skip(1))
    } else if s.len() == 1 || is_sep(s[1]) {
        seq![s.take(1)] + step_tokens(s.skip(1))
    } else {
        let rest = step_tokens(s.skip(1));
        rest.update(0, s.take(1) + rest[0])
    }
}

/// Leading separators do not change the tokenization.
proof fn lemma_step_tokens_skip_seps(s: Seq<char>, a: int)
    requires
        0 <= a <= s.len(),
        forall|t: int| 0 <= t < a ==> is_sep(#[trigger] s[t]),
    ensures
        step_tokens(s) == step_tokens(s.skip(a)),
    decreases a,
{
    if a == 0 {
        assert(s.skip(0) =~= s);
    } else {
        assert(is_sep(s[0]));
        lemma_step_tokens_skip_seps(s.skip(1), a - 1);
        assert(s.skip(1).skip(a - 1) =~= s.skip(a));
    }
}

/// A separator-free prefix of width `w`, delimited on its right, is the
/// first token, and the rest of the string tokenizes independently.
proof fn lemma_step_tokens_head(s: Seq<char>, w: int)
    requires
        1 <= w <= s.len(),
        forall|t: int| 0 <= t < w ==> !is_sep(#[trigger] s[t]),
        w == s.len() || is_sep(s[w]),
    ensures
        step_tokens(s) == seq![s.take(w)] + step_tokens(s.skip(w)),
    decreases w,
{
    if w == 1 {
        assert(step_tokens(s) == seq![s.take(1)] + step_tokens(s.skip(1)));
    } else {
        assert(!is_sep(s[1]));
        lemma_step_tokens_head(s.skip(1), w - 1);
        let rest = step_tokens(s.skip(1));
        assert(s.skip(1).skip(w - 1) =~= s.skip(w));
        assert(rest == seq![s.skip(1).take(w - 1)] + step_tokens(s.skip(w)));
        assert(rest.len() > 0);
        assert(s.take(1) + s.skip(1).take(w - 1) =~= s.take(w));
        assert(step_tokens(s) == rest.update(0, s.take(1) + rest[0]));
        assert(rest.update(0, s.take(w)) =~= seq![s.take(w)] + step_tokens(s.skip(w)));
    }
}

/// Whether a character separates step tokens.
fn is_sep_char(c: char) -> (b: bool)
    ensures
        b == is_sep(c),
{
    c == ',' || c == '\n'
}

/// Turns a user-given step list into its ordered tokens.  The same
/// grammar serves the inline comma-separated form and the contents of a
/// newline-separated step file; empty tokens are dropped, so trailing
/// separators are harmless.
pub fn parse_step_list(steps: &str) -> (r: Vec<String>)
    ensures
        r.deep_view() == step_tokens(steps@),
    decreases steps@.len(),
{
    let len = steps.unicode_len();
    let mut a: usize = 0;
    while a < len && is_sep_char(steps.get_char(a))
        invariant
            len == steps@.len(),
            a <= len,
            forall|t: int| 0 <= t < a ==> is_sep(#[trigger] steps@[t]),
        decreases len - a,
    {
        a = a + 1;
    }
    proof {
        lemma_step_tokens_skip_seps(steps@, a as int);
    }
    if a == len {
        proof {
            assert(steps@.skip(a as int) =~= Seq::<char>::empty());
        }
        let r: Vec<String> = Vec::new();
        proof {
            assert(r.deep_view() =~= step_tokens(steps@));
        }
        return r;
    }
    let mut b: usize = a;
    while b < len && !is_sep_char(steps.get_char(b))
        invariant
            len == steps@.len(),
            a <= b <= len,
            forall|t: int| a <= t < b ==> !is_sep(#[trigger] steps@[t]),
        decreases len - b,
    {
        b = b + 1;
    }
    assert(b > a);
    let head = steps.substring_char(a, b).to_owned();
    let tail = steps.substring_char(b, len);
    let mut rest = parse_step_list(tail);
    let ghost old_rest_v = rest@;
    let ghost old_rest_dv = rest.deep_view();
    rest.insert(0, head);
    proof {
        let s = steps@;
        lemma_step_tokens_head(s.skip(a as int), b - a);
        assert(s.skip(a as int).take(b - a) =~= s.subrange(a as int, b as int));
        assert(s.skip(a as int).skip(b - a) =~= s.skip(b as int));
        assert(tail@ =~= s.skip(b as int));
        assert(step_tokens(s) == seq![s.subrange(a as int, b as int)] + step_tokens(s.skip(b as int)));
        assert forall|i: int| 0 <= i < rest.deep_view().len() implies rest.deep_view()[i]
            == step_tokens(s)[i] by {
            if i == 0 {
                assert(rest@[0] == head);
            } else {
                assert(rest@[i] == old_rest_v[i - 1]);
                assert(old_rest_v[i - 1].deep_view() == old_rest_dv[i - 1]);
            }
        }
        assert(rest.deep_view() =~= step_tokens(s));
    }
    rest
}

/// Law: both canned profiles pass step validation: every token of the
/// default profile, and of the default profile with topographic
/// correction appended at the end, matches a registry name.
pub proof fn lemma_canned_profiles_valid()
    ensures
        all_tokens_valid(default_profile_spec()),
        all_tokens_valid(default_profile_spec().push("correct_topography"@)),
{
    reveal_strlit("abslog");
    reveal_strlit("average_traces");
    reveal_strlit("average_traces:2");
    reveal_strlit("correct_topography");
    assert("abslog"@.subrange(0, 0 + "abslog"@.len() as int) =~= "abslog"@);
    assert(contains_seq("abslog"@, "abslog"@));
    assert(token_valid("abslog"@)) by {
        assert(registry_names()[0] == "abslog"@);
    }
    assert("average_traces:2"@.subrange(0, 0 + "average_traces"@.len() as int)
        =~= "average_traces"@);
    assert(contains_seq("average_traces:2"@, "average_traces"@));
    assert(token_valid("average_traces:2"@)) by {
        assert(registry_names()[2] == "average_traces"@);
    }
    assert("correct_topography"@.subrange(0, 0 + "correct_topography"@.len() as int)
        =~= "correct_topography"@);
    assert(contains_seq("correct_topography"@, "correct_topography"@));
    assert(token_valid("correct_topography"@)) by {
        assert(registry_names()[3] == "correct_topography"@);
    }
    assert forall|i: int| 0 <= i < default_profile_spec().len() implies #[trigger] token_valid(
        default_profile_spec()[i],
    ) by {
        if i == 0 {
            assert(default_profile_spec()[0] == "abslog"@);
        } else {
            assert(default_profile_spec()[1] == "average_traces:2"@);
        }
    }
    let with_topo = default_profile_spec().push("correct_topography"@);
    assert forall|i: int| 0 <= i < with_topo.len() implies #[trigger] token_valid(
        with_topo[i],
    ) by {
        if i < default_profile_spec().len() {
            assert(with_topo[i] == default_profile_spec()[i]);
        } else {
            assert(with_topo[i] == "correct_topography"@);
        }
    }
}

/// Whether a character is a decimal digit.
pub open spec fn is_digit(c: char) -> bool {
    48 <= c as u32 && c as u32 <= 57
}

/// The numeric value of a decimal digit string.
pub open spec fn dec_value(s: Seq<char>) -> int
    decreases s.len(),
{
    if s.len() == 0 {
        0
    } else {
        dec_value(s.take(s.len() - 1)) * 10 + (s.last() as u32 - 48)
    }
}

/// A digit string's value is never negative.
proof fn lemma_dec_value_nonneg(s: Seq<char>)
    requires
        forall|t: int| 0 <= t < s.len() ==> is_digit(#[trigger] s[t]),
    ensures
        dec_value(s) >= 0,
    decreases s.len(),
{
    if s.len() > 0 {
        lemma_dec_value_nonneg(s.take(s.len() - 1));
    }
}

/// Dropping trailing digits never increases a digit string's value.
proof fn lemma_dec_value_prefix_le(s: Seq<char>, j: int)
    requires
        0 <= j <= s.len(),
        forall|t: int| 0 <= t < s.len() ==> is_digit(#[trigger] s[t]),
    ensures
        dec_value(s.take(j)) <= dec_value(s),
    decreases s.len() - j,
{
    if j < s.len() {
        lemma_dec_value_prefix_le(s, j + 1);
        assert(s.take(j + 1).take(j) =~= s.take(j));
        lemma_dec_value_nonneg(s.take(j));
        assert(s.take(j + 1).last() == s[j]);
        assert(dec_value(s.take(j + 1)) == dec_value(s.take(j)) * 10 + (s[j] as u32 - 48));
    } else {
        assert(s.take(j) =~= s);
    }
}

/// Splits a step token at its first parameter separator: the base step
/// name before the first colon, and the parameter text after it when one
/// is present.
pub fn split_step_param(token: &str) -> (r: (String, Option<String>))
    ensures
        r.1 matches Some(p) ==> (exists|i: int|
            0 <= i < token@.len() && #[trigger] token@[i] == ':' && (forall|t: int|
                0 <= t < i ==> #[trigger] token@[t] != ':') && r.0@ == token@.take(i) && p@
                == token@.skip(i + 1)),
        r.1 is None ==> (r.0@ == token@ && (forall|t: int|
            0 <= t < token@.len() ==> #[trigger] token@[t] != ':')),
{
    let len = token.unicode_len();
    let mut i: usize = 0;
    while i < len && token.get_char(i) != ':'
        invariant
            len == token@.len(),
            i <= len,
            forall|t: int| 0 <= t < i ==> #[trigger] token@[t] != ':',
        decreases len - i,
    {
        i = i + 1;
    }
    if i == len {
        return (token.to_owned(), None);
    }
    let base = token.substring_char(0, i).to_owned();
    let param = token.substring_char(i + 1, len).to_owned();
    proof {
        assert(token@.take(i as int) =~= token@.subrange(0, i as int));
        assert(token@.skip(i + 1) =~= token@.subrange(i + 1, len as int));
    }
    (base, Some(param))
}

/// Reads a step's window parameter: the value of a non-empty decimal
/// digit string, when it fits the machine's word.
pub fn parse_window_param(s: &str) -> (r: Option<usize>)
    ensures
        r matches Some(n) ==> (s@.len() > 0 && (forall|t: int|
            0 <= t < s@.len() ==> is_digit(#[trigger] s@[t])) && n == dec_value(s@)),
        r is None ==> !(s@.len() > 0 && (forall|t: int|
            0 <= t < s@.len() ==> is_digit(#[trigger] s@[t])) && dec_value(s@) <= usize::MAX),
{
    let len = s.unicode_len();
    if len == 0 {
        return None;
    }
    let mut acc: usize = 0;
    let mut j: usize = 0;
    while j < len
        invariant
            len == s@.len(),
            j <= len,
            forall|t: int| 0 <= t < j ==> is_digit(#[trigger] s@[t]),
            acc == dec_value(s@.take(j as int)),
        decreases len - j,
    {
        let c = s.get_char(j);
        let d32 = c as u32;
        if d32 < 48 || d32 > 57 {
            return None;
        }
        let d = (d32 - 48) as usize;
        proof {
            assert(s@.take(j + 1).take(j as int) =~= s@.take(j as int));
            assert(s@.take(j + 1).last() == s@[j as int]);
            assert(dec_value(s@.take(j + 1)) == acc * 10 + d);
        }
        if acc > (usize::MAX - d) / 10 {
            proof {
                vstd::arithmetic::div_mod::lemma_fundamental_div_mod(
                    usize::MAX - d,
                    10,
                );
                assert(acc * 10 + d > usize::MAX);
                if s@.len() > 0 && (forall|t: int|
                    0 <= t < s@.len() ==> is_digit(#[trigger] s@[t])) {
                    lemma_dec_value_prefix_le(s@, j + 1);
                }
            }
            return None;
        }
        acc = acc * 10 + d;
        j = j + 1;
    }
    proof {
        assert(s@.take(len as int) =~= s@);
    }
    Some(acc)
}

} // verus!
