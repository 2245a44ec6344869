//! The text work behind prompt enhancement: UTF-8-safe truncation, keyword
//! extraction, context assembly and the enhancement request itself. The
//! calls that actually reach a language model are the shell's; everything
//! that decides what those calls are handed is here.

use vstd::prelude::*;
use crate::textops::{
    is_blank, is_ws_char, push_char, starts_with_seq, str_eq, str_is_blank, str_trim,
    substring_copy, trimmed_view, ws_char,
};

verus! {

/// What one enhancement run reports: the prompt before and after, how many
/// context entries were added, whether the side-car was used, and the error
/// that stopped it, if any.
#[derive(Debug)]
pub struct EnhancementResult {
    pub original_prompt: String,
    pub enhanced_prompt: String,
    pub context_count: usize,
    pub acemcp_used: bool,
    pub error: Option<String>,
}

/// How many bytes one character takes in UTF-8.
pub open spec fn utf8_len(c: char) -> nat {
    if (c as u32) < 0x80 {
        1
    } else if (c as u32) < 0x800 {
        2
    } else if (c as u32) < 0x10000 {
        3
    } else {
        4
    }
}

/// How many bytes the first `k` characters of `s` take in UTF-8.
pub open spec fn prefix_bytes(s: Seq<char>, k: int) -> nat
    decreases k,
{
    if k <= 0 {
        0
    } else {
        prefix_bytes(s, k - 1) + utf8_len(s[k - 1])
    }
}

/// Byte prefixes only grow.
proof fn lemma_prefix_bytes_monotone(s: Seq<char>, a: int, b: int)
    requires
        a <= b,
    ensures
        prefix_bytes(s, a) <= prefix_bytes(s, b),
    decreases b - a,
{
    if a < b {
        lemma_prefix_bytes_monotone(s, a, b - 1);
    }
}

/// The largest `k <= upto` whose prefix fits in `max` bytes.
pub open spec fn cut_point(s: Seq<char>, max: int, upto: int) -> int
    decreases upto,
{
    if upto <= 0 {
        0
    } else if prefix_bytes(s, upto) <= max {
        upto
    } else {
        cut_point(s, max, upto - 1)
    }
}

/// When `k` fits and everything beyond it does not, the cut point is `k`.
proof fn lemma_cut_point_is(s: Seq<char>, max: int, upto: int, k: int)
    requires
        0 <= k <= upto,
        prefix_bytes(s, k) <= max,
        forall|q: int| k < q <= upto ==> prefix_bytes(s, q) > max,
    ensures
        cut_point(s, max, upto) == k,
    decreases upto,
{
    if upto > 0 && k < upto {
        lemma_cut_point_is(s, max, upto - 1, k);
    }
}

/// How many bytes one character takes in UTF-8.
fn utf8_len_of(c: char) -> (r: usize)
    ensures
        r == utf8_len(c),
        1 <= r <= 4,
{
    let u = c as u32;
    if u < 0x80 {
        1
    } else if u < 0x800 {
        2
    } else if u < 0x10000 {
        3
    } else {
        4
    }
}

/// The longest character prefix of `s` that fits in `max` bytes of UTF-8 —
/// the whole of `s` when it fits, and the first character alone when not
/// even it fits, so that a non-empty text never truncates to nothing.
pub open spec fn truncate_view(s: Seq<char>, max: int) -> Seq<char> {
    if prefix_bytes(s, s.len() as int) <= max {
        s
    } else {
        let k = cut_point(s, max, s.len() as int);
        if k > 0 {
            s.take(k)
        } else {
            s.take(1)
        }
    }
}

/// The longest character prefix of `s` that fits in `max_bytes` bytes of
/// UTF-8, per `truncate_view`.
pub fn truncate_utf8_safe<'a>(s: &'a str, max_bytes: usize) -> (r: &'a str)
    ensures
        r@ == truncate_view(s@, max_bytes as int),
{
    let len = s.unicode_len();
    let mut acc: usize = 0;
    let mut k: usize = 0;
    let mut fits = true;
    while k < len && fits
        invariant
            len == s@.len(),
            k <= len,
            acc == prefix_bytes(s@, k as int),
            acc <= max_bytes,
            fits ==> forall|q: int| 0 <= q <= k ==> prefix_bytes(s@, q) <= max_bytes,
            !fits ==> prefix_bytes(s@, k as int + 1) > max_bytes && forall|q: int|
                0 <= q <= k ==> prefix_bytes(s@, q) <= max_bytes,
        decreases len - k + (if fits {
            1int
        } else {
            0int
        }),
    {
        let w = utf8_len_of(s.get_char(k));
        if w <= max_bytes - acc {
            acc += w;
            k += 1;
            proof {
                assert forall|q: int| 0 <= q <= k implies prefix_bytes(s@, q) <= max_bytes by {
                    lemma_prefix_bytes_monotone(s@, q, k as int);
                }
            }
        } else {
            fits = false;
        }
    }
    if k == len {
        proof {
            assert(prefix_bytes(s@, s@.len() as int) <= max_bytes);
        }
        s
    } else {
        proof {
            assert(prefix_bytes(s@, k as int + 1) > max_bytes);
            assert forall|q: int| k < q <= len implies prefix_bytes(s@, q) > max_bytes by {
                lemma_prefix_bytes_monotone(s@, k as int + 1, q);
            }
            lemma_cut_point_is(s@, max_bytes as int, len as int, k as int);
            lemma_prefix_bytes_monotone(s@, len as int, len as int);
        }
        if k > 0 {
            s.substring_char(0, k)
        } else {
            proof {
                assert(prefix_bytes(s@, 1) > max_bytes);
                assert(len > 0);
            }
            s.substring_char(0, 1)
        }
    }
}

/// How many non-overlapping occurrences of `p` a left-to-right scan of `s`
/// finds: at each match the scan jumps past it, otherwise it moves by one.
pub open spec fn count_matches(s: Seq<char>, p: Seq<char>) -> nat
    decreases s.len(),
{
    if p.len() == 0 || s.len() < p.len() {
        0
    } else if starts_with_seq(s, p) {
        1 + count_matches(s.skip(p.len() as int), p)
    } else {
        count_matches(s.skip(1), p)
    }
}

/// Counts non-overlapping occurrences of `p` in `s`, left to right.
pub fn count_occurrences(s: &str, p: &str) -> (r: usize)
    ensures
        r as nat == count_matches(s@, p@),
{
    let s_len = s.unicode_len();
    let p_len = p.unicode_len();
    if p_len == 0 {
        return 0;
    }
    if p_len > s_len {
        return 0;
    }
    let bound = s_len - p_len;
    let mut count: usize = 0;
    let mut i: usize = 0;
    proof {
        assert(s@.skip(0) =~= s@);
    }
    while i <= bound
        invariant
            s_len == s@.len(),
            p_len == p@.len(),
            1 <= p_len <= s_len,
            bound == s_len - p_len,
            i <= s_len,
            count <= i,
            count as nat + count_matches(s@.skip(i as int), p@) == count_matches(s@, p@),
        decreases s_len - i,
    {
        proof {
            assert(s@.skip(i as int).len() == s_len - i);
            assert(s@.skip(i as int).take(p@.len() as int) =~= s@.subrange(
                i as int,
                i as int + p@.len() as int,
            ));
        }
        let here = crate::textops::str_match_at(s, p, i, s_len, p_len);
        if here {
            count += 1;
            proof {
                assert(starts_with_seq(s@.skip(i as int), p@));
                assert(s@.skip(i as int).skip(p@.len() as int) =~= s@.skip(
                    i as int + p@.len() as int,
                ));
            }
            i += p_len;
        } else {
            proof {
                assert(!starts_with_seq(s@.skip(i as int), p@));
                assert(s@.skip(i as int).skip(1) =~= s@.skip(i as int + 1));
            }
            i += 1;
        }
    }
    proof {
        assert(count_matches(s@.skip(i as int), p@) == 0) by {
            assert(s@.skip(i as int).len() < p@.len());
        }
    }
    count
}

/// The byte budget a prompt gets before truncation.
pub const MAX_PROMPT_LENGTH: usize = 50000;

/// The byte budget the conversation context gets before truncation.
pub const MAX_CONTEXT_LENGTH: usize = 30000;

/// The byte budget of the whole enhancement request.
pub const MAX_TOTAL_LENGTH: usize = 100000;

/// The prompt part of the request: the trimmed prompt, truncated with a
/// marker when it exceeds the budget.
pub open spec fn prompt_section_view(prompt: Seq<char>) -> Seq<char> {
    let trimmed = trimmed_view(prompt);
    if prefix_bytes(trimmed, trimmed.len() as int) > MAX_PROMPT_LENGTH as int {
        truncate_view(trimmed, MAX_PROMPT_LENGTH as int)
            + "...\n\n[\u{63D0}\u{793A}\u{8BCD}\u{8FC7}\u{957F}\u{FF0C}\u{5DF2}\u{81EA}\u{52A8}\u{622A}\u{65AD}]"@
    } else {
        trimmed
    }
}

/// Trims the prompt and truncates it to its budget, with a marker when
/// anything was cut. The second result says whether it was.
pub fn prepare_prompt_section(prompt: &str) -> (r: (String, bool))
    ensures
        r.0@ == prompt_section_view(prompt@),
        r.1 == (prefix_bytes(trimmed_view(prompt@), trimmed_view(prompt@).len() as int)
            > MAX_PROMPT_LENGTH as int),
{
    let trimmed = str_trim(prompt);
    if byte_len_exceeds(trimmed.as_str(), MAX_PROMPT_LENGTH) {
        let mut out = truncate_utf8_safe(trimmed.as_str(), MAX_PROMPT_LENGTH).to_owned();
        out.append(
            "...\n\n[\u{63D0}\u{793A}\u{8BCD}\u{8FC7}\u{957F}\u{FF0C}\u{5DF2}\u{81EA}\u{52A8}\u{622A}\u{65AD}]",
        );
        (out, true)
    } else {
        (trimmed, false)
    }
}

/// The context part of the request: the recent messages joined by a
/// divider, truncated with a marker when a limit is given and exceeded,
/// wrapped under a heading — or nothing at all when there are no messages.
pub open spec fn context_section_view(messages: Seq<Seq<char>>, limit: Option<int>) -> Seq<char> {
    if messages.len() == 0 {
        Seq::empty()
    } else {
        let joined = join_with(messages, "\n---\n"@);
        let inner = match limit {
            Some(m) => if prefix_bytes(joined, joined.len() as int) > m {
                truncate_view(joined, m)
                    + "\n\n[\u{4E0A}\u{4E0B}\u{6587}\u{8FC7}\u{957F}\u{FF0C}\u{5DF2}\u{81EA}\u{52A8}\u{622A}\u{65AD}]"@
            } else {
                joined
            },
            None => joined,
        };
        "\n\nRecent conversation context:\n"@ + inner + "\n"@
    }
}

/// Builds the context part of the request, under an optional byte limit.
/// The second result says whether the context was cut.
pub fn build_context_section(messages: &Vec<String>, limit: Option<usize>) -> (r: (String, bool))
    ensures
        r.0@ == context_section_view(
            messages.deep_view(),
            match limit {
                Some(m) => Some(m as int),
                None => None,
            },
        ),
{
    if messages.len() == 0 {
        proof {
            assert(messages.deep_view().len() == 0);
        }
        return (String::new(), false);
    }
    let joined = join_strings(messages, "\n---\n");
    let (inner, cut): (String, bool) = match limit {
        Some(m) => {
            if byte_len_exceeds(joined.as_str(), m) {
                let mut t = truncate_utf8_safe(joined.as_str(), m).to_owned();
                t.append(
                    "\n\n[\u{4E0A}\u{4E0B}\u{6587}\u{8FC7}\u{957F}\u{FF0C}\u{5DF2}\u{81EA}\u{52A8}\u{622A}\u{65AD}]",
                );
                (t, true)
            } else {
                (joined, false)
            }
        },
        None => (joined, false),
    };
    let mut out = "\n\nRecent conversation context:\n".to_owned();
    out.append(inner.as_str());
    out.append("\n");
    (out, cut)
}

/// The fixed tail between the context and the original prompt.
pub open spec fn request_tail_view() -> Seq<char> {
    "\n\u{3010}Output Requirements\u{3011}\nReturn only the optimized prompt in Chinese, without any explanations, comments, or meta-information.\n\nOriginal prompt:\n"@
}

/// Composes head, context, tail, prompt and the final newline.
fn compose_request(head: &str, context_section: &str, final_prompt: &str) -> (r: String)
    ensures
        r@ == head@ + context_section@ + request_tail_view() + final_prompt@ + "\n"@,
{
    let mut out = head.to_owned();
    out.append(context_section);
    out.append(
        "\n\u{3010}Output Requirements\u{3011}\nReturn only the optimized prompt in Chinese, without any explanations, comments, or meta-information.\n\nOriginal prompt:\n",
    );
    out.append(final_prompt);
    out.append("\n");
    out
}

/// The fixed head of the enhancement request.
pub open spec fn request_head_view() -> Seq<char> {
    "You are a professional prompt optimization assistant, specializing in optimizing user prompts for a coding assistant.\n\n\u{3010}Optimization Goals\u{3011}\n1. Maintain the user's original intent and core requirements\n2. Make the prompt clearer, more specific, and more structured\n3. Add necessary technical details based on conversation context\n4. Use accurate technical terminology and avoid ambiguity\n\n\u{3010}Optimization Principles\u{3011}\n- \u{2705} Keep it technical and practical\n- \u{2705} Only optimize expression, don't change core requirements\n- \u{2705} If the user's intent is already clear, minimal adjustment is needed\n- \u{274C} Don't add role-playing (like \"act as...\")\n- \u{274C} Don't add excessive politeness or formalities\n- \u{274C} Don't change the question type (e.g., turn technical questions into analysis reports)\n- \u{274C} Don't add extra tasks that users didn't request\n"@
}

/// The whole enhancement request, ready for the assistant's stdin.
pub fn build_enhancement_request(context_section: &str, final_prompt: &str) -> (r: String)
    ensures
        r@ == request_head_view() + context_section@ + request_tail_view() + final_prompt@
            + "\n"@,
{
    compose_request(
        "You are a professional prompt optimization assistant, specializing in optimizing user prompts for a coding assistant.\n\n\u{3010}Optimization Goals\u{3011}\n1. Maintain the user's original intent and core requirements\n2. Make the prompt clearer, more specific, and more structured\n3. Add necessary technical details based on conversation context\n4. Use accurate technical terminology and avoid ambiguity\n\n\u{3010}Optimization Principles\u{3011}\n- \u{2705} Keep it technical and practical\n- \u{2705} Only optimize expression, don't change core requirements\n- \u{2705} If the user's intent is already clear, minimal adjustment is needed\n- \u{274C} Don't add role-playing (like \"act as...\")\n- \u{274C} Don't add excessive politeness or formalities\n- \u{274C} Don't change the question type (e.g., turn technical questions into analysis reports)\n- \u{274C} Don't add extra tasks that users didn't request\n",
        context_section,
        final_prompt,
    )
}

/// The context a search returned, cut to `max_length` bytes with a marker
/// when longer.
pub open spec fn trimmed_context_view(context: Seq<char>, max_length: int) -> Seq<char> {
    if prefix_bytes(context, context.len() as int) > max_length {
        truncate_view(context, max_length)
            + "...\n\n(\u{4E0A}\u{4E0B}\u{6587}\u{8FC7}\u{957F}\u{FF0C}\u{5DF2}\u{622A}\u{65AD})"@
    } else {
        context
    }
}

/// Cuts a search's context to its byte budget, marking the cut.
pub fn trim_context_result(context: &str, max_length: usize) -> (r: String)
    ensures
        r@ == trimmed_context_view(context@, max_length as int),
{
    if byte_len_exceeds(context, max_length) {
        let mut out = truncate_utf8_safe(context, max_length).to_owned();
        out.append(
            "...\n\n(\u{4E0A}\u{4E0B}\u{6587}\u{8FC7}\u{957F}\u{FF0C}\u{5DF2}\u{622A}\u{65AD})",
        );
        out
    } else {
        context.to_owned()
    }
}

/// The enhanced prompt: the trimmed original with the found context under
/// a heading — or the original untouched when no context came back.
pub open spec fn enhanced_prompt_view(prompt: Seq<char>, trimmed_context: Seq<char>) -> Seq<char> {
    if !is_blank(trimmed_context) {
        trimmed_view(prompt)
            + "\n\n--- \u{9879}\u{76EE}\u{4E0A}\u{4E0B}\u{6587} (\u{6765}\u{81EA} acemcp \u{8BED}\u{4E49}\u{641C}\u{7D22}) ---\n"@
            + trimmed_context
    } else {
        prompt
    }
}

/// Attaches the found context to the prompt, per `enhanced_prompt_view`.
pub fn compose_enhanced_prompt(prompt: &str, trimmed_context: &str) -> (r: String)
    ensures
        r@ == enhanced_prompt_view(prompt@, trimmed_context@),
{
    if !str_is_blank(trimmed_context) {
        let mut out = str_trim(prompt);
        out.append(
            "\n\n--- \u{9879}\u{76EE}\u{4E0A}\u{4E0B}\u{6587} (\u{6765}\u{81EA} acemcp \u{8BED}\u{4E49}\u{641C}\u{7D22}) ---\n",
        );
        out.append(trimmed_context);
        out
    } else {
        prompt.to_owned()
    }
}

/// Whether `s` takes more than `m` bytes in UTF-8.
pub fn byte_len_exceeds(s: &str, m: usize) -> (r: bool)
    ensures
        r == (prefix_bytes(s@, s@.len() as int) > m),
{
    let len = s.unicode_len();
    let mut acc: usize = 0;
    let mut k: usize = 0;
    while k < len
        invariant
            len == s@.len(),
            k <= len,
            acc == prefix_bytes(s@, k as int),
            acc <= m,
        decreases len - k,
    {
        let w = utf8_len_of(s.get_char(k));
        if w > m - acc {
            proof {
                lemma_prefix_bytes_monotone(s@, k as int + 1, len as int);
            }
            return true;
        }
        acc += w;
        k += 1;
    }
    false
}

/// The first whitespace position at or after `i`, or the length of `s`.
pub open spec fn word_end(s: Seq<char>, i: int) -> int {
    if exists|j: int| i <= j < s.len() && is_ws_char(s[j]) {
        choose|j: int|
            i <= j < s.len() && is_ws_char(s[j]) && forall|q: int| i <= q < j ==> !is_ws_char(s[q])
    } else {
        s.len() as int
    }
}

/// When positions `i..e` are non-whitespace and `e` is whitespace or the
/// end, the word ends exactly at `e`.
proof fn lemma_word_end_is(s: Seq<char>, i: int, e: int)
    requires
        0 <= i <= e <= s.len(),
        forall|q: int| i <= q < e ==> !is_ws_char(s[q]),
        e < s.len() ==> is_ws_char(s[e]),
    ensures
        word_end(s, i) == e,
{
    if e < s.len() {
        assert(exists|j: int| i <= j < s.len() && is_ws_char(s[j]));
        let c = choose|j: int|
            i <= j < s.len() && is_ws_char(s[j]) && forall|q: int| i <= q < j ==> !is_ws_char(s[q]);
        assert(c == e) by {
            if c < e {
                assert(!is_ws_char(s[c]));
            }
            if e < c {
                assert(!is_ws_char(s[e]));
            }
        }
    } else {
        assert(word_end(s, i) == e) by {
            if exists|j: int| i <= j < s.len() && is_ws_char(s[j]) {
                let c = choose|j: int|
                    i <= j < s.len() && is_ws_char(s[j]) && forall|q: int|
                        i <= q < j ==> !is_ws_char(s[q]);
                assert(!is_ws_char(s[c]));
            }
        }
    }
}

/// The words of `s`: the maximal whitespace-free runs, in order.
pub open spec fn split_ws_from(s: Seq<char>, i: int) -> Seq<Seq<char>>
    decreases s.len() - i,
{
    if i < 0 || i >= s.len() {
        Seq::empty()
    } else if is_ws_char(s[i]) {
        split_ws_from(s, i + 1)
    } else if i < word_end(s, i) <= s.len() {
        seq![s.subrange(i, word_end(s, i))] + split_ws_from(s, word_end(s, i))
    } else {
        Seq::empty()
    }
}

/// Splits `s` at whitespace into its words.
#[verifier::rlimit(100)]
pub fn split_whitespace_words(s: &str) -> (r: Vec<String>)
    ensures
        r.deep_view() == split_ws_from(s@, 0),
{
    let len = s.unicode_len();
    let mut out: Vec<String> = Vec::new();
    let mut i: usize = 0;
    proof {
        assert(out.deep_view() =~= Seq::<Seq<char>>::empty());
    }
    while i < len
        invariant
            len == s@.len(),
            i <= len,
            split_ws_from(s@, 0) == out.deep_view() + split_ws_from(s@, i as int),
        decreases len - i,
    {
        if ws_char(s.get_char(i)) {
            i += 1;
        } else {
            let mut e: usize = i + 1;
            while e < len && !ws_char(s.get_char(e))
                invariant
                    len == s@.len(),
                    i < e <= len,
                    forall|q: int| i <= q < e ==> !is_ws_char(s@[q]),
                decreases len - e,
            {
                e += 1;
            }
            proof {
                lemma_word_end_is(s@, i as int, e as int);
            }
            let ghost out_prev = out.deep_view();
            let w = substring_copy(s, i, e);
            out.push(w);
            proof {
                assert(out.deep_view() =~= out_prev.push(s@.subrange(i as int, e as int)));
                assert(split_ws_from(s@, i as int) == seq![s@.subrange(i as int, e as int)]
                    + split_ws_from(s@, e as int));
                assert(out.deep_view() + split_ws_from(s@, e as int) =~= out_prev + split_ws_from(
                    s@,
                    i as int,
                ));
            }
            i = e;
        }
    }
    proof {
        assert(split_ws_from(s@, len as int) =~= Seq::<Seq<char>>::empty());
        assert(out.deep_view() =~= out.deep_view() + split_ws_from(s@, len as int));
    }
    out
}

/// What `str::to_lowercase` yields: the result depends on the characters
/// alone.
pub uninterp spec fn lower_of(s: Seq<char>) -> Seq<char>;

/// Relies on `str::to_lowercase`.
#[verifier::external_body]
pub(crate) fn lowercase(s: &str) -> (r: String)
    ensures
        r@ == lower_of(s@),
{
    s.to_lowercase()
}

/// The filler words keyword extraction drops, compared after lowering.
pub open spec fn is_stopword_view(w: Seq<char>) -> bool {
    ||| w == "\u{8BF7}"@
    ||| w == "\u{5E2E}\u{6211}"@
    ||| w == "\u{6211}\u{60F3}"@
    ||| w == "\u{5982}\u{4F55}"@
    ||| w == "\u{600E}\u{4E48}"@
    ||| w == "\u{80FD}\u{5426}"@
    ||| w == "\u{53EF}\u{4EE5}"@
    ||| w == "the"@
    ||| w == "a"@
    ||| w == "an"@
    ||| w == "is"@
    ||| w == "are"@
    ||| w == "was"@
    ||| w == "were"@
    ||| w == "please"@
    ||| w == "help"@
    ||| w == "me"@
    ||| w == "i"@
    ||| w == "want"@
    ||| w == "how"@
    ||| w == "can"@
}

/// Whether a lowered word is a stopword.
fn is_stopword(w: &str) -> (r: bool)
    ensures
        r == is_stopword_view(w@),
{
    str_eq(w, "\u{8BF7}") || str_eq(w, "\u{5E2E}\u{6211}") || str_eq(w, "\u{6211}\u{60F3}")
        || str_eq(w, "\u{5982}\u{4F55}") || str_eq(w, "\u{600E}\u{4E48}") || str_eq(
        w,
        "\u{80FD}\u{5426}",
    ) || str_eq(w, "\u{53EF}\u{4EE5}") || str_eq(w, "the") || str_eq(w, "a") || str_eq(w, "an")
        || str_eq(w, "is") || str_eq(w, "are") || str_eq(w, "was") || str_eq(w, "were") || str_eq(
        w,
        "please",
    ) || str_eq(w, "help") || str_eq(w, "me") || str_eq(w, "i") || str_eq(w, "want") || str_eq(
        w,
        "how",
    ) || str_eq(w, "can")
}

/// A word survives keyword extraction: longer than two bytes, and its
/// lowered form is no stopword.
pub open spec fn keyword_kept(w: Seq<char>) -> bool {
    prefix_bytes(w, w.len() as int) > 2 && !is_stopword_view(lower_of(w))
}

/// The first `n` elements, or all of them when fewer.
pub open spec fn first_n<A>(s: Seq<A>, n: int) -> Seq<A> {
    if s.len() <= n {
        s
    } else {
        s.take(n)
    }
}

/// The search keywords of a prompt: its words, the stopwords and the very
/// short ones dropped, at most ten of them, joined by single spaces.
pub fn extract_keywords(prompt: &str) -> (r: String)
    ensures
        r@ == join_with(
            first_n(split_ws_from(prompt@, 0).filter(|w: Seq<char>| keyword_kept(w)), 10),
            " "@,
        ),
{
    let ghost pred = |w: Seq<char>| keyword_kept(w);
    let words = split_whitespace_words(prompt);
    let n = words.len();
    let mut kept: Vec<String> = Vec::new();
    let mut j: usize = 0;
    proof {
        assert(words.deep_view().take(0) =~= Seq::<Seq<char>>::empty());
        reveal_with_fuel(Seq::filter, 1);
        assert(kept.deep_view() =~= words.deep_view().take(0).filter(pred));
    }
    while j < n
        invariant
            n == words@.len(),
            j <= n,
            kept.deep_view() == words.deep_view().take(j as int).filter(pred),
            pred == (|w: Seq<char>| keyword_kept(w)),
        decreases n - j,
    {
        let ghost wd = words.deep_view();
        let ghost kept_prev = kept.deep_view();
        proof {
            assert(wd.take(j as int + 1).drop_last() =~= wd.take(j as int));
            assert(wd.take(j as int + 1).last() == wd[j as int]);
            assert(wd[j as int] == words@[j as int]@);
            reveal_with_fuel(Seq::filter, 2);
        }
        let keep = {
            let long_enough = byte_len_exceeds(words[j].as_str(), 2);
            if long_enough {
                let lowered = lowercase(words[j].as_str());
                !is_stopword(lowered.as_str())
            } else {
                false
            }
        };
        if keep {
            kept.push(words[j].clone());
            proof {
                assert(kept.deep_view() =~= kept_prev.push(wd[j as int]));
                assert(kept.deep_view() =~= wd.take(j as int + 1).filter(pred));
            }
        } else {
            proof {
                assert(kept.deep_view() =~= wd.take(j as int + 1).filter(pred));
            }
        }
        j += 1;
    }
    proof {
        assert(words.deep_view().take(n as int) =~= words.deep_view());
    }
    let mut limited: Vec<String> = Vec::new();
    let mut q: usize = 0;
    let limit = if kept.len() < 10 {
        kept.len()
    } else {
        10
    };
    while q < limit
        invariant
            limit <= kept@.len(),
            q <= limit,
            limited@.len() == q,
            forall|p: int| 0 <= p < q ==> (#[trigger] limited@[p])@ == kept.deep_view()[p],
        decreases limit - q,
    {
        limited.push(kept[q].clone());
        proof {
            assert(limited@[q as int] == kept@[q as int]);
        }
        q += 1;
    }
    proof {
        assert(limited.deep_view() =~= first_n(kept.deep_view(), 10));
    }
    join_strings(&limited, " ")
}

/// `s` with the non-overlapping occurrences of `p` removed, scanning left
/// to right. An empty pattern removes nothing.
pub open spec fn remove_matches(s: Seq<char>, p: Seq<char>) -> Seq<char>
    decreases s.len(),
{
    if p.len() == 0 || s.len() < p.len() {
        s
    } else if starts_with_seq(s, p) {
        remove_matches(s.skip(p.len() as int), p)
    } else {
        seq![s.first()] + remove_matches(s.skip(1), p)
    }
}

/// Removes every occurrence of `p` from `s`, left to right.
pub fn remove_all_occurrences(s: &str, p: &str) -> (r: String)
    ensures
        r@ == remove_matches(s@, p@),
{
    let s_len = s.unicode_len();
    let p_len = p.unicode_len();
    if p_len == 0 {
        return s.to_owned();
    }
    let mut out = String::new();
    let mut i: usize = 0;
    proof {
        assert(s@.skip(0) =~= s@);
    }
    while i < s_len
        invariant
            s_len == s@.len(),
            p_len == p@.len(),
            p_len >= 1,
            i <= s_len,
            remove_matches(s@, p@) == out@ + remove_matches(s@.skip(i as int), p@),
        decreases s_len - i,
    {
        let ghost rem = s@.skip(i as int);
        proof {
            assert(rem.len() == s_len - i);
            assert(rem.first() == s@[i as int]);
        }
        if p_len <= s_len - i {
            proof {
                assert(rem.take(p@.len() as int) =~= s@.subrange(i as int, i as int + p@.len() as int));
            }
            let here = crate::textops::str_match_at(s, p, i, s_len, p_len);
            if here {
                proof {
                    assert(starts_with_seq(rem, p@));
                    assert(rem.skip(p@.len() as int) =~= s@.skip(i as int + p@.len() as int));
                }
                i += p_len;
            } else {
                proof {
                    assert(!starts_with_seq(rem, p@));
                    assert(rem.skip(1) =~= s@.skip(i as int + 1));
                }
                push_char(&mut out, s.get_char(i));
                i += 1;
            }
        } else {
            proof {
                assert(rem.skip(1) =~= s@.skip(i as int + 1));
                assert(remove_matches(rem, p@) == rem);
                assert(remove_matches(s@.skip(i as int + 1), p@) == s@.skip(i as int + 1));
                assert(rem =~= seq![rem.first()] + s@.skip(i as int + 1));
            }
            push_char(&mut out, s.get_char(i));
            i += 1;
        }
    }
    proof {
        assert(s@.skip(s_len as int) =~= Seq::<char>::empty());
        assert(remove_matches(s@.skip(s_len as int), p@) == Seq::<char>::empty());
        assert(out@ =~= out@ + Seq::<char>::empty());
    }
    out
}

/// `s` with every leading occurrence of `p` stripped.
pub open spec fn strip_prefix_all(s: Seq<char>, p: Seq<char>) -> Seq<char>
    decreases s.len(),
{
    if p.len() > 0 && starts_with_seq(s, p) && s.len() >= p.len() {
        strip_prefix_all(s.skip(p.len() as int), p)
    } else {
        s
    }
}

/// `s` with every trailing occurrence of `p` stripped.
pub open spec fn strip_suffix_all(s: Seq<char>, p: Seq<char>) -> Seq<char>
    decreases s.len(),
{
    if p.len() > 0 && s.len() >= p.len() && s.subrange(s.len() - p.len(), s.len() as int) == p {
        strip_suffix_all(s.take(s.len() - p.len()), p)
    } else {
        s
    }
}

/// Whether `p` occurs at position `i` of `s`, phrased over the suffix view.
fn prefix_occurs_at(s: &str, p: &str, i: usize, s_len: usize, p_len: usize) -> (r: bool)
    requires
        s_len == s@.len(),
        p_len == p@.len(),
        i + p_len <= s_len,
    ensures
        r == starts_with_seq(s@.skip(i as int), p@),
{
    proof {
        assert(s@.skip(i as int).take(p@.len() as int) =~= s@.subrange(
            i as int,
            i as int + p@.len() as int,
        ));
    }
    crate::textops::str_match_at(s, p, i, s_len, p_len)
}

/// Whether `p` ends the prefix `s[..e]`, phrased over the prefix view.
fn suffix_occurs_at(s: &str, p: &str, e: usize, s_len: usize, p_len: usize) -> (r: bool)
    requires
        s_len == s@.len(),
        p_len == p@.len(),
        p_len <= e <= s_len,
    ensures
        r == (s@.take(e as int).subrange(e - p_len, e as int) == p@),
{
    proof {
        assert(s@.take(e as int).subrange(e - p_len, e as int) =~= s@.subrange(
            (e - p_len) as int,
            e as int,
        ));
    }
    crate::textops::str_match_at(s, p, e - p_len, s_len, p_len)
}

/// Strips every leading occurrence of `p`, as `str::trim_start_matches`.
pub fn strip_prefix_occurrences(s: &str, p: &str) -> (r: String)
    ensures
        r@ == strip_prefix_all(s@, p@),
{
    let s_len = s.unicode_len();
    let p_len = p.unicode_len();
    if p_len == 0 {
        return s.to_owned();
    }
    let mut i: usize = 0;
    proof {
        assert(s@.skip(0) =~= s@);
    }
    if p_len <= s_len {
        while i <= s_len - p_len && prefix_occurs_at(s, p, i, s_len, p_len)
            invariant
                s_len == s@.len(),
                p_len == p@.len(),
                1 <= p_len <= s_len,
                i <= s_len,
                strip_prefix_all(s@, p@) == strip_prefix_all(s@.skip(i as int), p@),
            decreases s_len - i,
        {
            proof {
                assert(starts_with_seq(s@.skip(i as int), p@));
                assert(s@.skip(i as int).skip(p@.len() as int) =~= s@.skip(
                    i as int + p@.len() as int,
                ));
            }
            i += p_len;
        }
    }
    proof {
        let rem = s@.skip(i as int);
        assert(strip_prefix_all(rem, p@) == rem);
    }
    crate::textops::substring_copy(s, i, s_len)
}

/// Strips every trailing occurrence of `p`, as `str::trim_end_matches`.
pub fn strip_suffix_occurrences(s: &str, p: &str) -> (r: String)
    ensures
        r@ == strip_suffix_all(s@, p@),
{
    let s_len = s.unicode_len();
    let p_len = p.unicode_len();
    if p_len == 0 {
        return s.to_owned();
    }
    let mut e: usize = s_len;
    proof {
        assert(s@.take(s_len as int) =~= s@);
    }
    while e >= p_len && suffix_occurs_at(s, p, e, s_len, p_len)
        invariant
            s_len == s@.len(),
            p_len == p@.len(),
            p_len >= 1,
            e <= s_len,
            strip_suffix_all(s@, p@) == strip_suffix_all(s@.take(e as int), p@),
        decreases e,
    {
        proof {
            let cur = s@.take(e as int);
            assert(cur.subrange(cur.len() - p@.len(), cur.len() as int) == p@);
            assert(cur.take(cur.len() - p@.len()) =~= s@.take(e as int - p@.len() as int));
        }
        e -= p_len;
    }
    proof {
        let cur = s@.take(e as int);
        assert(strip_suffix_all(cur, p@) == cur);
    }
    crate::textops::substring_copy(s, 0, e)
}

/// The boilerplate phrases a language model's reply may carry, in the order
/// they are removed.
pub open spec fn boilerplate_phrases() -> Seq<Seq<char>> {
    seq![
        "\u{8FD9}\u{662F}\u{4F18}\u{5316}\u{540E}\u{7684}\u{63D0}\u{793A}\u{8BCD}\u{FF1A}"@,
        "\u{4F18}\u{5316}\u{540E}\u{7684}\u{63D0}\u{793A}\u{8BCD}\u{FF1A}"@,
        "\u{8FD9}\u{662F}\u{4F18}\u{5316}\u{540E}\u{7684}\u{63D0}\u{793A}\u{8BCD}"@,
        "\u{4F18}\u{5316}\u{540E}\u{7684}\u{63D0}\u{793A}\u{8BCD}"@,
        "\u{4EE5}\u{4E0B}\u{662F}\u{4F18}\u{5316}\u{540E}\u{7684}\u{63D0}\u{793A}\u{8BCD}\u{FF1A}"@,
        "\u{4EE5}\u{4E0B}\u{662F}\u{4F18}\u{5316}\u{540E}\u{7684}\u{63D0}\u{793A}\u{8BCD}"@,
        "Loaded cached credentials"@,
        "Here's the enhanced prompt:"@,
        "Enhanced prompt:"@,
        "Optimized prompt:"@,
    ]
}

/// `s` after removing each phrase of `ps` in turn.
pub open spec fn remove_phrase_list(s: Seq<char>, ps: Seq<Seq<char>>) -> Seq<char>
    decreases ps.len(),
{
    if ps.len() == 0 {
        s
    } else {
        remove_phrase_list(remove_matches(s, ps.first()), ps.drop_first())
    }
}

/// Removes the boilerplate phrases, in order.
fn remove_boilerplate(s: &str) -> (r: String)
    ensures
        r@ == remove_phrase_list(s@, boilerplate_phrases()),
{
    let s1 = remove_all_occurrences(
        s,
        "\u{8FD9}\u{662F}\u{4F18}\u{5316}\u{540E}\u{7684}\u{63D0}\u{793A}\u{8BCD}\u{FF1A}",
    );
    let s2 = remove_all_occurrences(
        s1.as_str(),
        "\u{4F18}\u{5316}\u{540E}\u{7684}\u{63D0}\u{793A}\u{8BCD}\u{FF1A}",
    );
    let s3 = remove_all_occurrences(
        s2.as_str(),
        "\u{8FD9}\u{662F}\u{4F18}\u{5316}\u{540E}\u{7684}\u{63D0}\u{793A}\u{8BCD}",
    );
    let s4 = remove_all_occurrences(
        s3.as_str(),
        "\u{4F18}\u{5316}\u{540E}\u{7684}\u{63D0}\u{793A}\u{8BCD}",
    );
    let s5 = remove_all_occurrences(
        s4.as_str(),
        "\u{4EE5}\u{4E0B}\u{662F}\u{4F18}\u{5316}\u{540E}\u{7684}\u{63D0}\u{793A}\u{8BCD}\u{FF1A}",
    );
    let s6 = remove_all_occurrences(
        s5.as_str(),
        "\u{4EE5}\u{4E0B}\u{662F}\u{4F18}\u{5316}\u{540E}\u{7684}\u{63D0}\u{793A}\u{8BCD}",
    );
    let s7 = remove_all_occurrences(s6.as_str(), "Loaded cached credentials");
    let s8 = remove_all_occurrences(s7.as_str(), "Here's the enhanced prompt:");
    let s9 = remove_all_occurrences(s8.as_str(), "Enhanced prompt:");
    let s10 = remove_all_occurrences(s9.as_str(), "Optimized prompt:");
    proof {
        assert(s10@ == remove_phrase_list(s@, boilerplate_phrases())) by {
            reveal_with_fuel(remove_phrase_list, 12);
            let ps = boilerplate_phrases();
            assert(ps.drop_first().drop_first().drop_first().drop_first().drop_first().drop_first()
                .drop_first().drop_first().drop_first().drop_first() =~= Seq::<Seq<char>>::empty());
        }
    }
    s10
}

/// A line the cleanup keeps: non-blank after trimming and not a cached
/// credentials notice.
pub open spec fn is_kept_reply_line(t: Seq<char>) -> bool {
    t.len() > 0 && !starts_with_seq(t, "Loaded cached credentials"@)
}

/// The trimmed, kept lines of `s` from position `i` on.
pub open spec fn kept_reply_lines(s: Seq<char>, i: int) -> Seq<Seq<char>>
    decreases s.len() + 1 - i,
{
    if i < 0 || i >= s.len() {
        Seq::empty()
    } else {
        let e = crate::providers::line_end_from(s, i);
        if i <= e <= s.len() {
            let t = trimmed_view(s.subrange(i, e));
            let rest = kept_reply_lines(s, e + 1);
            if is_kept_reply_line(t) {
                seq![t] + rest
            } else {
                rest
            }
        } else {
            Seq::empty()
        }
    }
}

/// The trimmed, kept lines of a reply.
#[verifier::rlimit(100)]
fn collect_kept_lines(s: &str) -> (r: Vec<String>)
    ensures
        r.deep_view() == kept_reply_lines(s@, 0),
{
    let len = s.unicode_len();
    let mut out: Vec<String> = Vec::new();
    let mut i: usize = 0;
    proof {
        assert(out.deep_view() =~= Seq::<Seq<char>>::empty());
    }
    while i < len
        invariant
            len == s@.len(),
            i <= len,
            kept_reply_lines(s@, 0) == out.deep_view() + kept_reply_lines(s@, i as int),
        decreases len - i,
    {
        let mut e: usize = i;
        while e < len && s.get_char(e) != '\n'
            invariant
                len == s@.len(),
                i <= e <= len,
                forall|q: int| i <= q < e ==> s@[q] != '\n',
            decreases len - e,
        {
            e += 1;
        }
        proof {
            crate::providers::lemma_line_end_is(s@, i as int, e as int);
        }
        let ghost out_prev = out.deep_view();
        let line = substring_copy(s, i, e);
        let t = str_trim(line.as_str());
        let keep = !t.as_str().is_empty() && !str_starts_with_kept(t.as_str());
        if keep {
            out.push(t);
            proof {
                assert(out.deep_view() =~= out_prev.push(trimmed_view(s@.subrange(
                    i as int,
                    e as int,
                ))));
            }
        }
        proof {
            assert(kept_reply_lines(s@, i as int) == (if is_kept_reply_line(trimmed_view(
                s@.subrange(i as int, e as int),
            )) {
                seq![trimmed_view(s@.subrange(i as int, e as int))] + kept_reply_lines(
                    s@,
                    e as int + 1,
                )
            } else {
                kept_reply_lines(s@, e as int + 1)
            }));
            assert(kept_reply_lines(s@, 0) =~= out.deep_view() + kept_reply_lines(
                s@,
                e as int + 1,
            ));
        }
        if e == len {
            proof {
                assert(kept_reply_lines(s@, e as int + 1) =~= Seq::<Seq<char>>::empty());
                assert(out.deep_view() =~= out.deep_view() + kept_reply_lines(s@, e as int + 1));
            }
            return out;
        }
        i = e + 1;
    }
    proof {
        assert(kept_reply_lines(s@, len as int) =~= Seq::<Seq<char>>::empty());
        assert(out.deep_view() =~= out.deep_view() + kept_reply_lines(s@, len as int));
    }
    out
}

/// Whether a trimmed line begins with the cached-credentials notice.
fn str_starts_with_kept(t: &str) -> (r: bool)
    ensures
        r == starts_with_seq(t@, "Loaded cached credentials"@),
{
    crate::textops::str_starts_with(t, "Loaded cached credentials")
}

/// Both wrapping quotes dropped, when the text has them around it.
pub open spec fn unquoted_view(s: Seq<char>) -> Seq<char> {
    if s.len() >= 2 && s.first() == '"' && s.last() == '"' {
        s.subrange(1, s.len() - 1)
    } else {
        s
    }
}

/// A language model's raw reply, cleaned: boilerplate phrases removed,
/// blank and credentials-notice lines dropped, the rest re-joined and
/// trimmed, wrapping quotes and code fences stripped, and trimmed again.
pub open spec fn cleaned_reply_view(s: Seq<char>) -> Seq<char> {
    let without_phrases = remove_phrase_list(s, boilerplate_phrases());
    let joined = trimmed_view(join_with(kept_reply_lines(without_phrases, 0), "\n"@));
    let unquoted = unquoted_view(joined);
    trimmed_view(strip_suffix_all(strip_prefix_all(unquoted, "```"@), "```"@))
}

/// Cleans a language model's raw reply, per `cleaned_reply_view`.
pub fn clean_model_reply(s: &str) -> (r: String)
    ensures
        r@ == cleaned_reply_view(s@),
{
    let without_phrases = remove_boilerplate(s);
    let kept = collect_kept_lines(without_phrases.as_str());
    let joined_raw = join_strings(&kept, "\n");
    let joined = str_trim(joined_raw.as_str());
    let jlen = joined.as_str().unicode_len();
    let unquoted: String = if jlen >= 2 && joined.as_str().get_char(0) == '"'
        && joined.as_str().get_char(jlen - 1) == '"' {
        substring_copy(joined.as_str(), 1, jlen - 1)
    } else {
        joined
    };
    let defenced_front = strip_prefix_occurrences(unquoted.as_str(), "```");
    let defenced = strip_suffix_occurrences(defenced_front.as_str(), "```");
    str_trim(defenced.as_str())
}

/// `parts` joined by `sep`.
pub open spec fn join_with(parts: Seq<Seq<char>>, sep: Seq<char>) -> Seq<char>
    decreases parts.len(),
{
    if parts.len() == 0 {
        Seq::empty()
    } else if parts.len() == 1 {
        parts[0]
    } else {
        join_with(parts.drop_last(), sep) + sep + parts.last()
    }
}

/// Joins owned strings with a separator.
pub fn join_strings(parts: &Vec<String>, sep: &str) -> (r: String)
    ensures
        r@ == join_with(parts.deep_view(), sep@),
{
    let ghost pd = parts.deep_view();
    let n = parts.len();
    let mut out = String::new();
    let mut i: usize = 0;
    proof {
        assert(pd.take(0) =~= Seq::<Seq<char>>::empty());
    }
    while i < n
        invariant
            n == parts@.len(),
            pd == parts.deep_view(),
            i <= n,
            out@ == join_with(pd.take(i as int), sep@),
        decreases n - i,
    {
        if i > 0 {
            out.append(sep);
        }
        out.append(parts[i].as_str());
        proof {
            assert(pd.take(i as int + 1).drop_last() =~= pd.take(i as int));
            assert(pd.take(i as int + 1).last() == pd[i as int]);
            assert(pd[i as int] == parts@[i as int]@);
            if i == 0 {
                assert(out@ =~= join_with(pd.take(1), sep@));
            }
        }
        i += 1;
    }
    proof {
        assert(pd.take(n as int) =~= pd);
    }
    out
}

} // verus!
