//! Cleaning of raw translation text: semicolons and slashes become commas, and
//! annotations in parentheses and grammatical-case markers are removed until none is left.

use crate::text::{chars_of, same_text, string_of};
use vstd::prelude::*;

verus! {

/// A parenthetical annotation: an opening parenthesis, what follows up to the next
/// closing one, and that one. It may run over line breaks.
pub const PARENTHETICAL: &'static str = "\\([^)]*\\)";

/// The genitive marker with the white space before it.
pub const GENITIVE: &'static str = "\\s*GEN";

/// The accusative marker with the white space before it.
pub const ACCUSATIVE: &'static str = "\\s*ACC";

/// The dative marker with the white space before it.
pub const DATIVE: &'static str = "\\s*DAT";

/// Whether `regex::Regex::new` accepts `pattern`.
pub uninterp spec fn pattern_compiles(pattern: Seq<char>) -> bool;

/// What `regex::Regex::replace_all` returns for the regular expression `pattern`, the
/// haystack `text` and the replacement `rep`.
pub uninterp spec fn all_matches_replaced(
    pattern: Seq<char>,
    text: Seq<char>,
    rep: Seq<char>,
) -> Seq<char>;

/// `regex::Regex::new` followed by `regex::Regex::replace_all`. Trusted: the result is
/// `None` exactly when the engine rejects the pattern, and otherwise the text that the
/// engine produces, which depends on the three arguments alone and which the library
/// names. One law of that text is stated. The engine copies the haystack and puts the
/// replacement in place of each match; so with an empty replacement the result is the
/// haystack with the matches cut out: it is no longer than the haystack, and as long
/// only where nothing was cut, which leaves the haystack itself.
#[verifier::external_body]
fn regex_replace_all(pattern: &str, text: &str, rep: &str) -> (r: Option<String>)
    ensures
        r is Some <==> pattern_compiles(pattern@),
        r is Some ==> r->0@ == all_matches_replaced(pattern@, text@, rep@),
        r is Some && rep@.len() == 0 ==> r->0@.len() <= text@.len(),
        r is Some && rep@.len() == 0 && r->0@.len() == text@.len() ==> r->0@ == text@,
{
    match regex::Regex::new(pattern) {
        Ok(re) => Some(re.replace_all(text, rep).into_owned()),
        Err(_) => None,
    }
}

/// Every match of `pattern` in `text` replaced by `rep`. A pattern that the engine
/// does not accept leaves the text as it is.
pub open spec fn rewritten(pattern: Seq<char>, text: Seq<char>, rep: Seq<char>) -> Seq<char> {
    if pattern_compiles(pattern) {
        all_matches_replaced(pattern, text, rep)
    } else {
        text
    }
}

/// `text` without the matches of `pattern`.
pub open spec fn without(pattern: Seq<char>, text: Seq<char>) -> Seq<char> {
    rewritten(pattern, text, Seq::empty())
}

/// Replaces every match of `pattern` in `text` by `rep`. Where `rep` is empty the
/// result is no longer than `text`, and as long only where it is `text`.
pub fn rewrite(pattern: &str, text: &str, rep: &str) -> (r: String)
    ensures
        r@ == rewritten(pattern@, text@, rep@),
        rep@.len() == 0 ==> r@.len() <= text@.len(),
        rep@.len() == 0 && r@.len() == text@.len() ==> r@ == text@,
{
    match regex_replace_all(pattern, text, rep) {
        Some(s) => s,
        None => text.to_owned(),
    }
}

/// Removes every match of `pattern` from `text`.
pub fn remove_matches(pattern: &str, text: &str) -> (r: String)
    ensures
        r@ == without(pattern@, text@),
        r@.len() <= text@.len(),
        r@.len() == text@.len() ==> r@ == text@,
{
    proof {
        reveal_strlit("");
        assert(""@ =~= Seq::<char>::empty());
    }
    rewrite(pattern, text, "")
}

/// The comma for a semicolon or a slash, and any other character itself.
pub open spec fn separator_as_comma(c: char) -> char {
    if c == ';' || c == '/' {
        ','
    } else {
        c
    }
}

/// `text` with every semicolon and every slash turned into a comma.
pub open spec fn with_commas(text: Seq<char>) -> Seq<char> {
    text.map_values(|c: char| separator_as_comma(c))
}

/// Turns every semicolon and every slash of `text` into a comma.
pub fn commas(text: &str) -> (r: String)
    ensures
        r@ == with_commas(text@),
{
    let v = chars_of(text);
    let mut out: Vec<char> = Vec::new();
    let mut i: usize = 0;
    while i < v.len()
        invariant
            i <= v.len(),
            out@ =~= with_commas(v@.take(i as int)),
        decreases v.len() - i,
    {
        let c = v[i];
        if c == ';' || c == '/' {
            out.push(',');
        } else {
            out.push(c);
        }
        i += 1;
    }
    assert(v@.take(v.len() as int) =~= v@);
    string_of(&out)
}

/// One round of removals: the parenthetical annotations, then the genitive, the
/// accusative and the dative markers.
pub open spec fn struck(text: Seq<char>) -> Seq<char> {
    without(DATIVE@, without(ACCUSATIVE@, without(GENITIVE@, without(PARENTHETICAL@, text))))
}

/// One round of cleaning: the removals, then the commas.
pub open spec fn cleaned_once(text: Seq<char>) -> Seq<char> {
    with_commas(struck(text))
}

/// Rounds of cleaning for as long as a round shortens the text.
pub open spec fn settled(text: Seq<char>) -> Seq<char>
    decreases text.len(),
{
    if cleaned_once(text).len() < text.len() {
        settled(cleaned_once(text))
    } else {
        text
    }
}

/// The cleaned form of `text`: separators turned into commas, then rounds of removals
/// until a round removes nothing.
pub open spec fn normalized(text: Seq<char>) -> Seq<char> {
    settled(with_commas(text))
}

/// Whether `text` holds nothing to clean: no removal changes it and it holds no
/// semicolon and no slash.
pub open spec fn is_clean(text: Seq<char>) -> bool {
    &&& without(PARENTHETICAL@, text) == text
    &&& without(GENITIVE@, text) == text
    &&& without(ACCUSATIVE@, text) == text
    &&& without(DATIVE@, text) == text
    &&& with_commas(text) == text
}

/// Turning separators into commas twice is turning them once.
pub proof fn lemma_commas_once(text: Seq<char>)
    ensures
        with_commas(with_commas(text)) == with_commas(text),
{
    assert(with_commas(with_commas(text)) =~= with_commas(text));
}

/// Rounds of cleaning end in a text that no further round shortens; and where they
/// began without semicolons and slashes they end without.
pub proof fn lemma_settled(text: Seq<char>)
    ensures
        cleaned_once(settled(text)).len() >= settled(text).len(),
        with_commas(text) == text ==> with_commas(settled(text)) == settled(text),
        settled(settled(text)) == settled(text),
    decreases text.len(),
{
    if cleaned_once(text).len() < text.len() {
        lemma_settled(cleaned_once(text));
        lemma_commas_once(struck(text));
    }
}

/// Cleaning twice gives what cleaning once gives, on every text.
pub proof fn lemma_normalize_idempotent(text: Seq<char>)
    ensures
        normalized(normalized(text)) == normalized(text),
{
    lemma_commas_once(text);
    lemma_settled(with_commas(text));
}

/// Cleaning a text that holds nothing to clean gives the text back.
pub proof fn lemma_normalize_keeps_clean_text(text: Seq<char>)
    requires
        is_clean(text),
    ensures
        normalized(text) == text,
{
    assert(struck(text) == text);
}

/// Cleans a raw translation. Semicolons and slashes become commas. Parenthetical
/// annotations and the case markers `GEN`, `ACC` and `DAT`, with the white space before
/// them, are removed, round after round until a round removes nothing: what one removal
/// uncovers the next round removes. Defined on every text, and the result holds
/// nothing to clean.
pub fn normalize(text: &str) -> (r: String)
    ensures
        r@ == normalized(text@),
        is_clean(r@),
        forall|i: int| 0 <= i < r@.len() ==> r@[i] != ';' && r@[i] != '/',
{
    let mut current = commas(text);
    proof {
        lemma_commas_once(text@);
    }
    loop
        invariant_except_break
            settled(current@) == normalized(text@),
        invariant
            with_commas(current@) == current@,
        ensures
            current@ == normalized(text@),
            is_clean(current@),
        decreases current@.len(),
    {
        let no_notes = remove_matches(PARENTHETICAL, current.as_str());
        let no_gen = remove_matches(GENITIVE, no_notes.as_str());
        let no_acc = remove_matches(ACCUSATIVE, no_gen.as_str());
        let no_dat = remove_matches(DATIVE, no_acc.as_str());
        let next = commas(no_dat.as_str());
        assert(next@ == cleaned_once(current@));
        if next.as_str().unicode_len() < current.as_str().unicode_len() {
            proof {
                lemma_commas_once(no_dat@);
            }
            current = next;
        } else {
            break ;
        }
    }
    assert forall|i: int| 0 <= i < current@.len() implies current@[i] != ';' && current@[i]
        != '/' by {
        assert(with_commas(current@)[i] == separator_as_comma(current@[i]));
    }
    current
}

/// Tests whether `text` holds nothing to clean. Where it does, cleaning it gives it
/// back.
pub fn is_clean_text(text: &str) -> (clean: bool)
    ensures
        clean == is_clean(text@),
        clean ==> normalized(text@) == text@,
{
    let length = text.unicode_len();
    let no_separators = same_text(commas(text).as_str(), text);
    let no_notes = remove_matches(PARENTHETICAL, text).as_str().unicode_len() == length;
    let no_gen = remove_matches(GENITIVE, text).as_str().unicode_len() == length;
    let no_acc = remove_matches(ACCUSATIVE, text).as_str().unicode_len() == length;
    let no_dat = remove_matches(DATIVE, text).as_str().unicode_len() == length;
    let clean = no_separators && no_notes && no_gen && no_acc && no_dat;
    proof {
        if clean {
            lemma_normalize_keeps_clean_text(text@);
        }
    }
    clean
}

} // verus!
