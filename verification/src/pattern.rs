//! The fixed merge-commit pattern and its matcher.
//!
//! A message matches when it has exactly the canonical GitHub shape
//! `Merge pull request #<id> from <branch>`, optionally followed by
//! whitespace and a free-text title, and the numeric id fits in `u32`.
//! The grammar is stated by [`parse_pr`]; [`Matcher::extract`] is proved
//! to decide it.

use vstd::prelude::*;
use vstd::string::StrSliceExecFns;

verus! {

/// Decimal digit, `'0'` through `'9'`.
pub open spec fn is_digit_char(c: char) -> bool {
    ('0' as int) <= (c as int) <= ('9' as int)
}

/// The whitespace characters that may separate the branch from the title.
pub open spec fn is_space_char(c: char) -> bool {
    c == ' ' || c == '\t' || c == '\n' || c == '\r' || c == '\u{b}' || c == '\u{c}'
}

/// Numeric value of a digit character.
pub open spec fn digit_val(c: char) -> int {
    (c as int) - ('0' as int)
}

/// Value of a decimal digit string, most significant digit first.
pub open spec fn dec_val(s: Seq<char>) -> int
    decreases s.len(),
{
    if s.len() == 0 {
        0
    } else {
        dec_val(s.drop_last()) * 10 + digit_val(s.last())
    }
}

/// Length of the leading run of digit characters.
pub open spec fn digit_run_len(s: Seq<char>) -> int
    decreases s.len(),
{
    if s.len() == 0 || !is_digit_char(s[0]) {
        0
    } else {
        1 + digit_run_len(s.skip(1))
    }
}

/// Length of the leading run of non-whitespace characters.
pub open spec fn word_run_len(s: Seq<char>) -> int
    decreases s.len(),
{
    if s.len() == 0 || is_space_char(s[0]) {
        0
    } else {
        1 + word_run_len(s.skip(1))
    }
}

/// Length of the leading run of whitespace characters.
pub open spec fn space_run_len(s: Seq<char>) -> int
    decreases s.len(),
{
    if s.len() == 0 || !is_space_char(s[0]) {
        0
    } else {
        1 + space_run_len(s.skip(1))
    }
}

/// `p` is a prefix of `s`.
pub open spec fn prefix_of(p: Seq<char>, s: Seq<char>) -> bool {
    p.len() <= s.len() && s.subrange(0, p.len() as int) == p
}

/// The fields extracted from a matching merge-commit message.
pub ghost struct PrFields {
    pub id: int,
    pub branch: Seq<char>,
    pub title: Option<Seq<char>>,
}

/// The literal head of every matching message.
pub open spec fn merge_prefix() -> Seq<char> {
    "Merge pull request #"@
}

/// The literal separator between the id and the branch.
pub open spec fn from_sep() -> Seq<char> {
    " from "@
}

/// The grammar of a merge-commit message.
///
/// A message parses exactly when it is the literal head, a non-empty run
/// of digits whose value fits in `u32`, the literal separator, and a
/// non-empty branch running to the first whitespace; whatever follows the
/// whitespace is the title, absent when empty.
pub open spec fn parse_pr(msg: Seq<char>) -> Option<PrFields> {
    if !prefix_of(merge_prefix(), msg) {
        None
    } else {
        let rest = msg.skip(merge_prefix().len() as int);
        let dlen = digit_run_len(rest);
        if dlen == 0 {
            None
        } else {
            let digits = rest.take(dlen);
            let after_digits = rest.skip(dlen);
            if !prefix_of(from_sep(), after_digits) {
                None
            } else if dec_val(digits) > u32::MAX {
                None
            } else {
                let rest2 = after_digits.skip(from_sep().len() as int);
                let blen = word_run_len(rest2);
                if blen == 0 {
                    None
                } else {
                    let branch = rest2.take(blen);
                    let after_branch = rest2.skip(blen);
                    let wlen = space_run_len(after_branch);
                    let title = after_branch.skip(wlen);
                    Some(
                        PrFields {
                            id: dec_val(digits),
                            branch: branch,
                            title: if title.len() == 0 {
                                None
                            } else {
                                Some(title)
                            },
                        },
                    )
                }
            }
        }
    }
}

proof fn lemma_digit_run_char(s: Seq<char>)
    ensures
        0 <= digit_run_len(s) <= s.len(),
        forall|i: int| 0 <= i < digit_run_len(s) ==> is_digit_char(s[i]),
        digit_run_len(s) < s.len() ==> !is_digit_char(s[digit_run_len(s)]),
    decreases s.len(),
{
    if s.len() == 0 || !is_digit_char(s[0]) {
    } else {
        lemma_digit_run_char(s.skip(1));
        assert forall|i: int| 0 <= i < digit_run_len(s) implies is_digit_char(s[i]) by {
            if i > 0 {
                assert(s[i] == s.skip(1)[i - 1]);
            }
        }
    }
}

proof fn lemma_digit_run_unique(s: Seq<char>, k: int)
    requires
        0 <= k <= s.len(),
        forall|i: int| 0 <= i < k ==> is_digit_char(s[i]),
        k < s.len() ==> !is_digit_char(s[k]),
    ensures
        digit_run_len(s) == k,
    decreases s.len(),
{
    if s.len() == 0 || !is_digit_char(s[0]) {
    } else {
        assert(forall|i: int| 0 <= i < k - 1 ==> is_digit_char(s.skip(1)[i]));
        lemma_digit_run_unique(s.skip(1), k - 1);
    }
}

proof fn lemma_word_run_unique(s: Seq<char>, k: int)
    requires
        0 <= k <= s.len(),
        forall|i: int| 0 <= i < k ==> !is_space_char(s[i]),
        k < s.len() ==> is_space_char(s[k]),
    ensures
        word_run_len(s) == k,
    decreases s.len(),
{
    if s.len() == 0 || is_space_char(s[0]) {
    } else {
        assert(forall|i: int| 0 <= i < k - 1 ==> !is_space_char(s.skip(1)[i]));
        lemma_word_run_unique(s.skip(1), k - 1);
    }
}

proof fn lemma_space_run_char(s: Seq<char>)
    ensures
        0 <= space_run_len(s) <= s.len(),
        forall|i: int| 0 <= i < space_run_len(s) ==> is_space_char(s[i]),
        space_run_len(s) < s.len() ==> !is_space_char(s[space_run_len(s)]),
    decreases s.len(),
{
    if s.len() == 0 || !is_space_char(s[0]) {
    } else {
        lemma_space_run_char(s.skip(1));
        assert forall|i: int| 0 <= i < space_run_len(s) implies is_space_char(s[i]) by {
            if i > 0 {
                assert(s[i] == s.skip(1)[i - 1]);
            }
        }
    }
}

proof fn lemma_space_run_unique(s: Seq<char>, k: int)
    requires
        0 <= k <= s.len(),
        forall|i: int| 0 <= i < k ==> is_space_char(s[i]),
        k < s.len() ==> !is_space_char(s[k]),
    ensures
        space_run_len(s) == k,
    decreases s.len(),
{
    if s.len() == 0 || !is_space_char(s[0]) {
    } else {
        assert(forall|i: int| 0 <= i < k - 1 ==> is_space_char(s.skip(1)[i]));
        lemma_space_run_unique(s.skip(1), k - 1);
    }
}

proof fn lemma_dec_val_nonneg(s: Seq<char>)
    requires
        forall|i: int| 0 <= i < s.len() ==> is_digit_char(s[i]),
    ensures
        dec_val(s) >= 0,
    decreases s.len(),
{
    if s.len() == 0 {
    } else {
        assert(forall|i: int| 0 <= i < s.drop_last().len() ==> is_digit_char(s.drop_last()[i]));
        lemma_dec_val_nonneg(s.drop_last());
    }
}

proof fn lemma_dec_val_take_step(s: Seq<char>, i: int)
    requires
        0 <= i < s.len(),
    ensures
        dec_val(s.take(i + 1)) == dec_val(s.take(i)) * 10 + digit_val(s[i]),
{
    assert(s.take(i + 1).drop_last() =~= s.take(i));
    assert(s.take(i + 1).last() == s[i]);
}

proof fn lemma_dec_val_take_mono(s: Seq<char>, k: int)
    requires
        forall|i: int| 0 <= i < s.len() ==> is_digit_char(s[i]),
        0 <= k <= s.len(),
    ensures
        dec_val(s.take(k)) <= dec_val(s),
    decreases s.len() - k,
{
    if k == s.len() {
        assert(s.take(k) =~= s);
    } else {
        assert(forall|i: int| 0 <= i < s.take(k).len() ==> is_digit_char(s.take(k)[i]));
        lemma_dec_val_nonneg(s.take(k));
        lemma_dec_val_take_step(s, k);
        lemma_dec_val_take_mono(s, k + 1);
    }
}

/// Law: every message of exactly the shape
/// `Merge pull request #<digits> from <branch>` — digits non-empty with
/// a value that fits `u32`, branch non-empty and free of whitespace —
/// parses to that id and branch, with no title.
pub proof fn lemma_merge_message_parses(digits: Seq<char>, branch: Seq<char>)
    requires
        digits.len() > 0,
        forall|i: int| 0 <= i < digits.len() ==> is_digit_char(digits[i]),
        dec_val(digits) <= u32::MAX,
        branch.len() > 0,
        forall|i: int| 0 <= i < branch.len() ==> !is_space_char(branch[i]),
    ensures
        parse_pr(merge_prefix() + digits + from_sep() + branch) == Some(
            PrFields { id: dec_val(digits), branch: branch, title: None },
        ),
{
    reveal_strlit("Merge pull request #");
    reveal_strlit(" from ");
    let msg = merge_prefix() + digits + from_sep() + branch;
    let plen = merge_prefix().len() as int;
    assert(msg.subrange(0, plen) =~= merge_prefix());
    let rest = msg.skip(plen);
    assert(rest =~= digits + from_sep() + branch);
    let dlen = digits.len() as int;
    assert(rest[dlen] == ' ');
    assert(!is_digit_char(' '));
    lemma_digit_run_unique(rest, dlen);
    assert(rest.take(dlen) =~= digits);
    let after_digits = rest.skip(dlen);
    assert(after_digits =~= from_sep() + branch);
    let slen = from_sep().len() as int;
    assert(after_digits.subrange(0, slen) =~= from_sep());
    let rest2 = after_digits.skip(slen);
    assert(rest2 =~= branch);
    lemma_word_run_unique(rest2, branch.len() as int);
    assert(rest2.take(branch.len() as int) =~= branch);
    let after_branch = rest2.skip(branch.len() as int);
    assert(after_branch.len() == 0);
    lemma_space_run_char(after_branch);
    assert(after_branch.skip(space_run_len(after_branch)) =~= after_branch);
}

/// Law: appending whitespace and a non-empty trailing segment after the
/// branch yields the same id and branch, with that segment as the
/// title.
pub proof fn lemma_merge_message_with_title_parses(
    digits: Seq<char>,
    branch: Seq<char>,
    sep: Seq<char>,
    title: Seq<char>,
)
    requires
        digits.len() > 0,
        forall|i: int| 0 <= i < digits.len() ==> is_digit_char(digits[i]),
        dec_val(digits) <= u32::MAX,
        branch.len() > 0,
        forall|i: int| 0 <= i < branch.len() ==> !is_space_char(branch[i]),
        sep.len() > 0,
        forall|i: int| 0 <= i < sep.len() ==> is_space_char(sep[i]),
        title.len() > 0,
        !is_space_char(title[0]),
    ensures
        parse_pr(merge_prefix() + digits + from_sep() + branch + sep + title) == Some(
            PrFields { id: dec_val(digits), branch: branch, title: Some(title) },
        ),
{
    reveal_strlit("Merge pull request #");
    reveal_strlit(" from ");
    let msg = merge_prefix() + digits + from_sep() + branch + sep + title;
    let plen = merge_prefix().len() as int;
    assert(msg.subrange(0, plen) =~= merge_prefix());
    let rest = msg.skip(plen);
    assert(rest =~= digits + from_sep() + branch + sep + title);
    let dlen = digits.len() as int;
    assert(rest[dlen] == ' ');
    assert(!is_digit_char(' '));
    lemma_digit_run_unique(rest, dlen);
    assert(rest.take(dlen) =~= digits);
    let after_digits = rest.skip(dlen);
    assert(after_digits =~= from_sep() + branch + sep + title);
    let slen = from_sep().len() as int;
    assert(after_digits.subrange(0, slen) =~= from_sep());
    let rest2 = after_digits.skip(slen);
    assert(rest2 =~= branch + sep + title);
    let blen = branch.len() as int;
    assert(rest2[blen] == sep[0]);
    lemma_word_run_unique(rest2, blen);
    assert(rest2.take(blen) =~= branch);
    let after_branch = rest2.skip(blen);
    assert(after_branch =~= sep + title);
    assert(after_branch[sep.len() as int] == title[0]);
    lemma_space_run_unique(after_branch, sep.len() as int);
    assert(after_branch.skip(sep.len() as int) =~= title);
}

/// Law: the pattern is anchored at the head of the message — any
/// message that does not begin with the literal head fails extraction,
/// however the pattern may occur in the middle of its text.
pub proof fn lemma_unanchored_text_never_parses(msg: Seq<char>)
    requires
        !prefix_of(merge_prefix(), msg),
    ensures
        parse_pr(msg) is None,
{
}

/// Law: a message of the merge-commit shape whose id does not fit the
/// target integer width fails extraction.
pub proof fn lemma_overflowing_id_does_not_parse(digits: Seq<char>, tail: Seq<char>)
    requires
        digits.len() > 0,
        forall|i: int| 0 <= i < digits.len() ==> is_digit_char(digits[i]),
        dec_val(digits) > u32::MAX,
        tail.len() == 0 || !is_digit_char(tail[0]),
    ensures
        parse_pr(merge_prefix() + digits + tail) is None,
{
    reveal_strlit("Merge pull request #");
    let msg = merge_prefix() + digits + tail;
    let plen = merge_prefix().len() as int;
    let rest = msg.skip(plen);
    assert(rest =~= digits + tail);
    let dlen = digits.len() as int;
    assert forall|i: int| 0 <= i < dlen implies is_digit_char(rest[i]) by {
        assert(rest[i] == digits[i]);
    }
    if dlen < rest.len() {
        assert(rest[dlen] == tail[0]);
    }
    lemma_digit_run_unique(rest, dlen);
    assert(rest.take(dlen) =~= digits);
}

/// Decide whether `pat` occurs in `s` at position `from`.
fn prefix_at(s: &str, from: usize, pat: &str) -> (b: bool)
    requires
        from as int <= s@.len(),
    ensures
        b == prefix_of(pat@, s@.skip(from as int)),
{
    let n = s.unicode_len();
    let m = pat.unicode_len();
    if n - from < m {
        return false;
    }
    let mut i: usize = 0;
    while i < m
        invariant
            0 <= i <= m,
            from + m <= n,
            n == s@.len(),
            m == pat@.len(),
            forall|j: int| 0 <= j < i ==> s@[from + j] == pat@[j],
        decreases m - i,
    {
        if s.get_char(from + i) != pat.get_char(i) {
            proof {
                if prefix_of(pat@, s@.skip(from as int)) {
                    assert(s@.skip(from as int).subrange(0, pat@.len() as int)[i as int]
                        == pat@[i as int]);
                    assert(s@.skip(from as int)[i as int] == s@[from + i]);
                }
            }
            return false;
        }
        i += 1;
    }
    proof {
        assert(s@.skip(from as int).subrange(0, pat@.len() as int) =~= pat@);
    }
    true
}

/// `c` is a decimal digit.
fn char_is_digit(c: char) -> (b: bool)
    ensures
        b == is_digit_char(c),
{
    let code = c as u32;
    48 <= code && code <= 57
}

/// `c` is one of the whitespace characters the pattern accepts.
fn char_is_space(c: char) -> (b: bool)
    ensures
        b == is_space_char(c),
{
    c == ' ' || c == '\t' || c == '\n' || c == '\r' || c == '\u{b}' || c == '\u{c}'
}

/// Position at which the run of digit characters starting at `from` ends.
fn digit_run_end(s: &str, from: usize) -> (end: usize)
    requires
        from as int <= s@.len(),
    ensures
        from <= end <= s@.len(),
        end - from == digit_run_len(s@.skip(from as int)),
{
    let n = s.unicode_len();
    let mut i: usize = from;
    while i < n && char_is_digit(s.get_char(i))
        invariant
            from <= i <= n,
            n == s@.len(),
            forall|j: int| from <= j < i ==> is_digit_char(s@[j]),
        decreases n - i,
    {
        i += 1;
    }
    proof {
        assert forall|j: int| 0 <= j < i - from implies is_digit_char(s@.skip(from as int)[j]) by {
            assert(s@.skip(from as int)[j] == s@[from + j]);
        }
        if (i - from) < s@.skip(from as int).len() {
            assert(s@.skip(from as int)[i - from] == s@[i as int]);
        }
        lemma_digit_run_unique(s@.skip(from as int), i - from);
    }
    i
}

/// Position at which the run of non-whitespace characters starting at
/// `from` ends.
fn word_run_end(s: &str, from: usize) -> (end: usize)
    requires
        from as int <= s@.len(),
    ensures
        from <= end <= s@.len(),
        end - from == word_run_len(s@.skip(from as int)),
{
    let n = s.unicode_len();
    let mut i: usize = from;
    while i < n && !char_is_space(s.get_char(i))
        invariant
            from <= i <= n,
            n == s@.len(),
            forall|j: int| from <= j < i ==> !is_space_char(s@[j]),
        decreases n - i,
    {
        i += 1;
    }
    proof {
        assert forall|j: int| 0 <= j < i - from implies !is_space_char(s@.skip(from as int)[j]) by {
            assert(s@.skip(from as int)[j] == s@[from + j]);
        }
        if (i - from) < s@.skip(from as int).len() {
            assert(s@.skip(from as int)[i - from] == s@[i as int]);
        }
        lemma_word_run_unique(s@.skip(from as int), i - from);
    }
    i
}

/// Position at which the run of whitespace characters starting at `from`
/// ends.
fn space_run_end(s: &str, from: usize) -> (end: usize)
    requires
        from as int <= s@.len(),
    ensures
        from <= end <= s@.len(),
        end - from == space_run_len(s@.skip(from as int)),
{
    let n = s.unicode_len();
    let mut i: usize = from;
    while i < n && char_is_space(s.get_char(i))
        invariant
            from <= i <= n,
            n == s@.len(),
            forall|j: int| from <= j < i ==> is_space_char(s@[j]),
        decreases n - i,
    {
        i += 1;
    }
    proof {
        assert forall|j: int| 0 <= j < i - from implies is_space_char(s@.skip(from as int)[j]) by {
            assert(s@.skip(from as int)[j] == s@[from + j]);
        }
        if (i - from) < s@.skip(from as int).len() {
            assert(s@.skip(from as int)[i - from] == s@[i as int]);
        }
        lemma_space_run_unique(s@.skip(from as int), i - from);
    }
    i
}

/// The outcome of one extraction attempt: a tagged variant, so downstream
/// code performs one exhaustive check.
pub enum MatchResult {
    NoMatch,
    Match { id: u32, branch: String, title: Option<String> },
}

/// The compiled pattern. The pattern is fixed, so the matcher carries no
/// state; it exists as an explicit value so that every extraction call
/// names the pattern instance it uses, and reuse across a whole run costs
/// nothing.
pub struct Matcher {}

/// The sequence of characters a `String` option holds, if any.
pub open spec fn opt_str_view(o: Option<String>) -> Option<Seq<char>> {
    match o {
        Option::None => None,
        Option::Some(s) => Some(s@),
    }
}

impl Matcher {
    /// Construct the matcher for the fixed merge-commit pattern.
    pub fn new() -> (m: Matcher) {
        Matcher {}
    }

    /// Attempt extraction of the pull-request fields from one commit
    /// message. Decides [`parse_pr`]: most commits are not merge commits,
    /// so `NoMatch` is the common, non-exceptional outcome.
    pub fn extract(&self, message: &str) -> (r: MatchResult)
        ensures
            (r is Match) <==> (parse_pr(message@) is Some),
            r matches MatchResult::Match { id, branch, title } ==> parse_pr(message@)
                == Some(PrFields { id: id as int, branch: branch@, title: opt_str_view(title) }),
    {
        let pat = "Merge pull request #";
        let sep = " from ";
        let n = message.unicode_len();
        if !prefix_at(message, 0, pat) {
            proof {
                assert(message@.skip(0) =~= message@);
            }
            return MatchResult::NoMatch;
        }
        proof {
            assert(message@.skip(0) =~= message@);
        }
        let plen = pat.unicode_len();
        let dstart = plen;
        let ghost rest = message@.skip(dstart as int);
        let dend = digit_run_end(message, dstart);
        if dend == dstart {
            return MatchResult::NoMatch;
        }
        let ghost dlen = dend - dstart;
        let ghost after_digits = rest.skip(dlen as int);
        proof {
            assert(rest.skip(dlen as int) =~= message@.skip(dend as int));
        }
        if !prefix_at(message, dend, sep) {
            return MatchResult::NoMatch;
        }
        let ghost digits = rest.take(dlen as int);
        proof {
            lemma_digit_run_char(rest);
            assert forall|j: int| 0 <= j < digits.len() implies is_digit_char(digits[j]) by {
                assert(digits[j] == rest[j]);
            }
        }
        let mut acc: u32 = 0;
        let mut i: usize = dstart;
        while i < dend
            invariant
                dstart <= i <= dend <= n,
                n == message@.len(),
                dstart == merge_prefix().len(),
                rest == message@.skip(dstart as int),
                digits == rest.take((dend - dstart) as int),
                forall|j: int| 0 <= j < digits.len() ==> is_digit_char(digits[j]),
                acc as int == dec_val(digits.take((i - dstart) as int)),
                prefix_of(merge_prefix(), message@),
                digit_run_len(rest) == dend - dstart,
                prefix_of(from_sep(), message@.skip(dend as int)),
            decreases dend - i,
        {
            let c = message.get_char(i);
            proof {
                assert(digits[i - dstart] == rest[i - dstart]);
                assert(rest[i - dstart] == message@[i as int]);
                lemma_dec_val_take_step(digits, i - dstart);
            }
            let d: u32 = (c as u32) - 48;
            let wide: u64 = (acc as u64) * 10 + (d as u64);
            if wide > u32::MAX as u64 {
                proof {
                    lemma_dec_val_take_mono(digits, i - dstart + 1);
                    assert(rest.skip((dend - dstart) as int) =~= message@.skip(dend as int));
                    assert(dec_val(rest.take(digit_run_len(rest))) > u32::MAX);
                }
                return MatchResult::NoMatch;
            }
            acc = wide as u32;
            i += 1;
        }
        proof {
            assert(digits.take((dend - dstart) as int) =~= digits);
        }
        let slen = sep.unicode_len();
        proof {
            assert(sep@.len() <= message@.skip(dend as int).len());
        }
        let bstart = dend + slen;
        let ghost rest2 = message@.skip(bstart as int);
        proof {
            assert(rest.skip((dend - dstart) as int) =~= message@.skip(dend as int));
            assert(message@.skip(dend as int).skip(from_sep().len() as int) =~= rest2);
        }
        let bend = word_run_end(message, bstart);
        if bend == bstart {
            return MatchResult::NoMatch;
        }
        let branch = message.substring_char(bstart, bend).to_owned();
        let wend = space_run_end(message, bend);
        let title = if wend < n {
            Some(message.substring_char(wend, n).to_owned())
        } else {
            None
        };
        proof {
            assert(rest2.take((bend - bstart) as int) =~= message@.subrange(
                bstart as int,
                bend as int,
            ));
            assert(rest2.skip((bend - bstart) as int) =~= message@.skip(bend as int));
            assert(message@.skip(bend as int).skip((wend - bend) as int) =~= message@.skip(
                wend as int,
            ));
            assert(message@.skip(wend as int) =~= message@.subrange(wend as int, n as int));
        }
        MatchResult::Match { id: acc, branch, title }
    }
}

} // verus!
