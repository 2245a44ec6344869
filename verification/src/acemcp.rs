//! The side-car's settings file: a flat `KEY = value` text. Reading picks
//! the managed keys out line by line; writing re-renders the managed keys
//! and preserves the remaining settings and the comments. File I/O is the
//! shell's; everything that interprets or produces the text is here.

use vstd::prelude::*;
use crate::decstr::{dec_str, u64_to_dec};
use crate::textops::{first_index_of, str_find_char, str_trim, substring_copy, trimmed_view};

verus! {

/// The managed side-car settings.
#[derive(Debug)]
pub struct AcemcpConfigData {
    pub base_url: String,
    pub token: String,
    pub batch_size: Option<u32>,
    pub max_lines_per_blob: Option<u32>,
}

impl Default for AcemcpConfigData {
    /// What a missing settings file means: empty endpoint and token, a
    /// batch of 10, 800 lines per blob.
    fn default() -> (r: Self)
        ensures
            r.base_url@ == Seq::<char>::empty(),
            r.token@ == Seq::<char>::empty(),
            r.batch_size == Some(10u32),
            r.max_lines_per_blob == Some(800u32),
    {
        AcemcpConfigData {
            base_url: String::new(),
            token: String::new(),
            batch_size: Some(10),
            max_lines_per_blob: Some(800),
        }
    }
}

/// When position `i` holds the first `c` of `s`, `first_index_of` picks it.
proof fn lemma_first_index_present(s: Seq<char>, c: char, i: int)
    requires
        0 <= i < s.len(),
        s[i] == c,
        forall|k: int| 0 <= k < i ==> s[k] != c,
    ensures
        first_index_of(s, c) == Some(i),
{
    assert(exists|q: int| 0 <= q < s.len() && s[q] == c);
    let q = choose|q: int| 0 <= q < s.len() && s[q] == c && forall|k: int| 0 <= k < q ==> s[k] != c;
    assert(q == i) by {
        if q < i {
            assert(s[q] != c);
        }
        if i < q {
            assert(s[i] != c);
        }
    }
}

/// The value of a `KEY = "value"` line: the text between the quotes, when
/// what follows the first `=` trims to a quoted string of at least two
/// characters.
#[verifier::opaque]
pub open spec fn toml_string_value(s: Seq<char>) -> Option<Seq<char>> {
    match first_index_of(s, '=') {
        None => None,
        Some(i) => {
            let v = trimmed_view(s.subrange(i + 1, s.len() as int));
            if v.len() >= 2 && v[0] == '"' && v[v.len() - 1] == '"' {
                Some(v.subrange(1, v.len() - 1))
            } else {
                None
            }
        },
    }
}

/// Reads the quoted value of a `KEY = "value"` line.
pub fn extract_toml_string_value(line: &str) -> (r: Option<String>)
    ensures
        match r {
            Some(v) => toml_string_value(line@) == Some(v@),
            None => toml_string_value(line@) is None,
        },
{
    proof {
        reveal(toml_string_value);
    }
    let len = line.unicode_len();
    let eq = match str_find_char(line, '=') {
        Some(i) => i,
        None => {
            proof {
                if first_index_of(line@, '=') is Some {
                    let q = choose|q: int|
                        0 <= q < line@.len() && line@[q] == '=' && forall|k: int|
                            0 <= k < q ==> line@[k] != '=';
                    assert(line@[q] != '=');
                }
            }
            return None;
        },
    };
    proof {
        lemma_first_index_present(line@, '=', eq as int);
    }
    let raw = substring_copy(line, eq + 1, len);
    let v = str_trim(raw.as_str());
    let vlen = v.as_str().unicode_len();
    if vlen >= 2 {
        let first = v.as_str().get_char(0);
        let last = v.as_str().get_char(vlen - 1);
        if first == '"' && last == '"' {
            return Some(substring_copy(v.as_str(), 1, vlen - 1));
        }
    }
    None
}

/// A decimal digit.
pub open spec fn is_digit(c: char) -> bool {
    '0' <= c && c <= '9'
}

/// The value of a digit character.
pub open spec fn digit_val(c: char) -> int {
    (c as u32) as int - 48
}

/// The value of a digit string.
pub open spec fn dec_value(s: Seq<char>) -> int
    decreases s.len(),
{
    if s.len() == 0 {
        0
    } else {
        dec_value(s.drop_last()) * 10 + digit_val(s.last())
    }
}

/// A digit string's value is never negative.
proof fn lemma_dec_value_nonneg(s: Seq<char>)
    requires
        forall|i: int| 0 <= i < s.len() ==> is_digit(#[trigger] s[i]),
    ensures
        dec_value(s) >= 0,
    decreases s.len(),
{
    if s.len() > 0 {
        lemma_dec_value_nonneg(s.drop_last());
    }
}

/// Digit prefixes only grow in value.
proof fn lemma_dec_value_monotone(s: Seq<char>, a: int, b: int)
    requires
        0 <= a <= b <= s.len(),
        forall|i: int| 0 <= i < s.len() ==> is_digit(#[trigger] s[i]),
    ensures
        dec_value(s.take(a)) <= dec_value(s.take(b)),
    decreases b - a,
{
    if a < b {
        lemma_dec_value_monotone(s, a, b - 1);
        assert(s.take(b).drop_last() =~= s.take(b - 1));
        assert(forall|i: int| 0 <= i < s.take(b - 1).len() ==> is_digit(#[trigger] s.take(b - 1)[i]));
        lemma_dec_value_nonneg(s.take(b - 1));
        assert(is_digit(s.take(b)[b - 1]));
    }
}

/// The value of a plain digit string, when it is one and fits.
pub open spec fn parse_digits_spec(body: Seq<char>) -> Option<u32> {
    if body.len() == 0 {
        None
    } else if exists|i: int| 0 <= i < body.len() && !is_digit(#[trigger] body[i]) {
        None
    } else if dec_value(body) > u32::MAX {
        None
    } else {
        Some(dec_value(body) as u32)
    }
}

/// What `str::parse::<u32>` accepts: an optional plus sign, then one or
/// more digits whose value fits; and the value it yields.
pub open spec fn parse_u32_spec(s: Seq<char>) -> Option<u32> {
    parse_digits_spec(
        if s.len() > 0 && s[0] == '+' {
            s.skip(1)
        } else {
            s
        },
    )
}

/// Parses an unsigned decimal, as `str::parse::<u32>` would.
pub fn parse_u32(s: &str) -> (r: Option<u32>)
    ensures
        match r {
            Some(v) => parse_u32_spec(s@) == Some(v),
            None => parse_u32_spec(s@) is None,
        },
{
    let len = s.unicode_len();
    let start: usize = if len > 0 && s.get_char(0) == '+' {
        1
    } else {
        0
    };
    let ghost body = if s@.len() > 0 && s@[0] == '+' {
        s@.skip(1)
    } else {
        s@
    };
    proof {
        assert(body.len() == len - start);
        assert(forall|i: int| 0 <= i < body.len() ==> body[i] == s@[i + start]);
    }
    if start == len {
        return None;
    }
    let mut acc: u64 = 0;
    let mut k: usize = start;
    while k < len
        invariant
            len == s@.len(),
            start <= k <= len,
            start <= 1,
            body == (if s@.len() > 0 && s@[0] == '+' {
                s@.skip(1)
            } else {
                s@
            }),
            (start == 1) == (s@.len() > 0 && s@[0] == '+'),
            body.len() == len - start,
            forall|i: int| 0 <= i < body.len() ==> body[i] == s@[i + start],
            forall|i: int| 0 <= i < k - start ==> is_digit(#[trigger] body[i]),
            acc <= u32::MAX,
            acc as int == dec_value(body.take(k - start)),
        decreases len - k,
    {
        let c = s.get_char(k);
        if c < '0' || c > '9' {
            proof {
                assert(body == (if s@.len() > 0 && s@[0] == '+' {
                    s@.skip(1)
                } else {
                    s@
                }));
                assert(body[k - start] == s@[k as int]);
                assert(!is_digit(body[k - start]));
                assert(exists|i: int| 0 <= i < body.len() && !is_digit(#[trigger] body[i]));
                assert(parse_u32_spec(s@) is None);
            }
            return None;
        }
        let d: u64 = (c as u32 as u64) - 48;
        proof {
            assert(is_digit(body[k - start]));
            assert(d < 10);
        }
        let next: u64 = acc * 10 + d;
        proof {
            assert(body.take(k - start + 1).drop_last() =~= body.take(k - start));
            assert(body.take(k - start + 1).last() == body[k - start]);
            assert(next as int == dec_value(body.take(k - start + 1)));
        }
        if next > u32::MAX as u64 {
            proof {
                if forall|i: int| 0 <= i < body.len() ==> is_digit(#[trigger] body[i]) {
                    lemma_dec_value_monotone(body, k - start + 1, body.len() as int);
                    assert(body.take(body.len() as int) =~= body);
                }
            }
            return None;
        }
        acc = next;
        k += 1;
    }
    proof {
        assert(body.take((len - start) as int) =~= body);
    }
    Some(acc as u32)
}

/// The value of a `KEY = 123` line: what follows the first `=`, trimmed,
/// parsed as an unsigned decimal.
#[verifier::opaque]
pub open spec fn toml_number_value(s: Seq<char>) -> Option<u32> {
    match first_index_of(s, '=') {
        None => None,
        Some(i) => parse_u32_spec(trimmed_view(s.subrange(i + 1, s.len() as int))),
    }
}

/// Reads the numeric value of a `KEY = 123` line.
pub fn extract_toml_number_value(line: &str) -> (r: Option<u32>)
    ensures
        match r {
            Some(v) => toml_number_value(line@) == Some(v),
            None => toml_number_value(line@) is None,
        },
{
    proof {
        reveal(toml_number_value);
    }
    let len = line.unicode_len();
    let eq = match str_find_char(line, '=') {
        Some(i) => i,
        None => {
            proof {
                if first_index_of(line@, '=') is Some {
                    let q = choose|q: int|
                        0 <= q < line@.len() && line@[q] == '=' && forall|k: int|
                            0 <= k < q ==> line@[k] != '=';
                    assert(line@[q] != '=');
                }
            }
            return None;
        },
    };
    proof {
        lemma_first_index_present(line@, '=', eq as int);
    }
    let raw = substring_copy(line, eq + 1, len);
    let v = str_trim(raw.as_str());
    parse_u32(v.as_str())
}

/// The fold state while reading the settings file.
pub struct SettingsAcc {
    pub base_url: Seq<char>,
    pub token: Seq<char>,
    pub batch_size: Option<u32>,
    pub max_lines_per_blob: Option<u32>,
}

/// Nothing read yet: empty endpoint and token, no numbers.
pub open spec fn init_settings() -> SettingsAcc {
    SettingsAcc {
        base_url: Seq::empty(),
        token: Seq::empty(),
        batch_size: None,
        max_lines_per_blob: None,
    }
}

/// One trimmed line's contribution: a recognized key with a well-formed
/// value overwrites the field, anything else changes nothing.
pub open spec fn settings_step_t(acc: SettingsAcc, t: Seq<char>) -> SettingsAcc {
    if crate::textops::starts_with_seq(t, "BASE_URL"@) {
        match toml_string_value(t) {
            Some(v) => SettingsAcc { base_url: v, ..acc },
            None => acc,
        }
    } else if crate::textops::starts_with_seq(t, "TOKEN"@) {
        match toml_string_value(t) {
            Some(v) => SettingsAcc { token: v, ..acc },
            None => acc,
        }
    } else if crate::textops::starts_with_seq(t, "BATCH_SIZE"@) {
        match toml_number_value(t) {
            Some(v) => SettingsAcc { batch_size: Some(v), ..acc },
            None => acc,
        }
    } else if crate::textops::starts_with_seq(t, "MAX_LINES_PER_BLOB"@) {
        match toml_number_value(t) {
            Some(v) => SettingsAcc { max_lines_per_blob: Some(v), ..acc },
            None => acc,
        }
    } else {
        acc
    }
}

/// One raw line's contribution, after trimming.
pub open spec fn settings_step(acc: SettingsAcc, line: Seq<char>) -> SettingsAcc {
    settings_step_t(acc, trimmed_view(line))
}

/// The fold over all lines, top to bottom: a later line wins.
pub open spec fn settings_fold(lines: Seq<Seq<char>>, acc: SettingsAcc) -> SettingsAcc
    decreases lines.len(),
{
    if lines.len() == 0 {
        acc
    } else {
        settings_fold(lines.drop_first(), settings_step(acc, lines.first()))
    }
}

/// Reads the managed settings out of the file's lines.
#[verifier::rlimit(100)]
pub fn parse_acemcp_settings(lines: &Vec<String>) -> (r: AcemcpConfigData)
    ensures
        ({
            let acc = settings_fold(lines.deep_view(), init_settings());
            &&& r.base_url@ == acc.base_url
            &&& r.token@ == acc.token
            &&& r.batch_size == acc.batch_size
            &&& r.max_lines_per_blob == acc.max_lines_per_blob
        }),
{
    let ghost ld = lines.deep_view();
    let n = lines.len();
    let mut base_url = String::new();
    let mut token = String::new();
    let mut batch_size: Option<u32> = None;
    let mut max_lines_per_blob: Option<u32> = None;
    let mut j: usize = 0;
    proof {
        assert(ld.skip(0) =~= ld);
        assert(SettingsAcc {
            base_url: base_url@,
            token: token@,
            batch_size: batch_size,
            max_lines_per_blob: max_lines_per_blob,
        } == init_settings());
    }
    while j < n
        invariant
            n == lines@.len(),
            ld == lines.deep_view(),
            j <= n,
            settings_fold(ld, init_settings()) == settings_fold(
                ld.skip(j as int),
                SettingsAcc {
                    base_url: base_url@,
                    token: token@,
                    batch_size: batch_size,
                    max_lines_per_blob: max_lines_per_blob,
                },
            ),
        decreases n - j,
    {
        let ghost acc = SettingsAcc {
            base_url: base_url@,
            token: token@,
            batch_size: batch_size,
            max_lines_per_blob: max_lines_per_blob,
        };
        proof {
            assert(ld.skip(j as int).first() == ld[j as int]);
            assert(ld.skip(j as int).drop_first() =~= ld.skip(j as int + 1));
            assert(ld[j as int] == lines@[j as int]@);
        }
        let t = str_trim(lines[j].as_str());
        if crate::textops::str_starts_with(t.as_str(), "BASE_URL") {
            match extract_toml_string_value(t.as_str()) {
                Some(v) => {
                    base_url = v;
                },
                None => {},
            }
        } else if crate::textops::str_starts_with(t.as_str(), "TOKEN") {
            match extract_toml_string_value(t.as_str()) {
                Some(v) => {
                    token = v;
                },
                None => {},
            }
        } else if crate::textops::str_starts_with(t.as_str(), "BATCH_SIZE") {
            match extract_toml_number_value(t.as_str()) {
                Some(v) => {
                    batch_size = Some(v);
                },
                None => {},
            }
        } else if crate::textops::str_starts_with(t.as_str(), "MAX_LINES_PER_BLOB") {
            match extract_toml_number_value(t.as_str()) {
                Some(v) => {
                    max_lines_per_blob = Some(v);
                },
                None => {},
            }
        }
        proof {
            assert(SettingsAcc {
                base_url: base_url@,
                token: token@,
                batch_size: batch_size,
                max_lines_per_blob: max_lines_per_blob,
            } == settings_step(acc, ld[j as int]));
        }
        j += 1;
    }
    proof {
        assert(ld.skip(n as int) =~= Seq::<Seq<char>>::empty());
    }
    AcemcpConfigData { base_url, token, batch_size, max_lines_per_blob }
}

/// A settings line whose key is managed by the writer itself.
pub open spec fn is_reserved_key(k: Seq<char>) -> bool {
    k == "BASE_URL"@ || k == "TOKEN"@ || k == "BATCH_SIZE"@ || k == "MAX_LINES_PER_BLOB"@
}

/// A line the writer preserves as a foreign setting: neither blank nor a
/// comment, with an `=` whose key is not managed here.
#[verifier::opaque]
pub open spec fn is_preserved_setting(line: Seq<char>) -> bool {
    let t = trimmed_view(line);
    t.len() > 0 && t[0] != '#' && match first_index_of(t, '=') {
        Some(i) => !is_reserved_key(trimmed_view(t.take(i))),
        None => false,
    }
}

/// A comment line the writer keeps at the end.
#[verifier::opaque]
pub open spec fn is_comment_line(line: Seq<char>) -> bool {
    let t = trimmed_view(line);
    t.len() > 0 && t[0] == '#'
}

/// The lines among `lines` that satisfy `pred`, each with a newline.
pub open spec fn cat_matching(lines: Seq<Seq<char>>, pred: spec_fn(Seq<char>) -> bool) -> Seq<char>
    decreases lines.len(),
{
    if lines.len() == 0 {
        Seq::empty()
    } else {
        cat_matching(lines.drop_last(), pred) + (if pred(lines.last()) {
            lines.last() + "\n"@
        } else {
            Seq::empty()
        })
    }
}

/// The whole settings file the writer produces: the four managed keys
/// (numbers only when set), then every preserved foreign setting in file
/// order, then the comments.
pub open spec fn rendered_settings(
    existing: Seq<Seq<char>>,
    base_url: Seq<char>,
    token: Seq<char>,
    batch_size: Option<u32>,
    max_lines_per_blob: Option<u32>,
) -> Seq<char> {
    "BASE_URL = \""@ + base_url + "\"\n"@ + "TOKEN = \""@ + token + "\"\n"@ + (match batch_size {
        Some(b) => "BATCH_SIZE = "@ + dec_str(b as nat) + "\n"@,
        None => Seq::empty(),
    }) + (match max_lines_per_blob {
        Some(m) => "MAX_LINES_PER_BLOB = "@ + dec_str(m as nat) + "\n"@,
        None => Seq::empty(),
    }) + cat_matching(existing, |l: Seq<char>| is_preserved_setting(l)) + cat_matching(
        existing,
        |l: Seq<char>| is_comment_line(l),
    )
}

/// Appends the preserved foreign-setting lines (`want_comments` false) or
/// the comment lines (`want_comments` true) of `existing`, each with a
/// newline.
#[verifier::rlimit(100)]
fn append_matching(out: &mut String, existing: &Vec<String>, want_comments: bool)
    ensures
        final(out)@ == old(out)@ + cat_matching(
            existing.deep_view(),
            if want_comments {
                |l: Seq<char>| is_comment_line(l)
            } else {
                |l: Seq<char>| is_preserved_setting(l)
            },
        ),
{
    let ghost pred = if want_comments {
        |l: Seq<char>| is_comment_line(l)
    } else {
        |l: Seq<char>| is_preserved_setting(l)
    };
    let ghost start = out@;
    let ghost ed = existing.deep_view();
    let n = existing.len();
    let mut j: usize = 0;
    proof {
        assert(ed.take(0) =~= Seq::<Seq<char>>::empty());
        assert(out@ =~= start + cat_matching(ed.take(0), pred));
    }
    while j < n
        invariant
            n == existing@.len(),
            ed == existing.deep_view(),
            j <= n,
            out@ == start + cat_matching(ed.take(j as int), pred),
            pred == if want_comments {
                |l: Seq<char>| is_comment_line(l)
            } else {
                |l: Seq<char>| is_preserved_setting(l)
            },
        decreases n - j,
    {
        proof {
            assert(ed.take(j as int + 1).drop_last() =~= ed.take(j as int));
            assert(ed.take(j as int + 1).last() == ed[j as int]);
            assert(ed[j as int] == existing@[j as int]@);
        }
        let keep = if want_comments {
            comment_line(existing[j].as_str())
        } else {
            preserved_setting_line(existing[j].as_str())
        };
        if keep {
            out.append(existing[j].as_str());
            out.append("\n");
            proof {
                assert(out@ =~= start + cat_matching(ed.take(j as int + 1), pred));
            }
        } else {
            proof {
                assert(out@ =~= start + cat_matching(ed.take(j as int + 1), pred));
            }
        }
        j += 1;
    }
    proof {
        assert(ed.take(n as int) =~= ed);
    }
}

/// Whether the writer preserves this line as a foreign setting.
fn preserved_setting_line(line: &str) -> (r: bool)
    ensures
        r == is_preserved_setting(line@),
{
    proof {
        reveal(is_preserved_setting);
    }
    let t = str_trim(line);
    let tlen = t.as_str().unicode_len();
    if tlen == 0 {
        return false;
    }
    if t.as_str().get_char(0) == '#' {
        return false;
    }
    match str_find_char(t.as_str(), '=') {
        Some(i) => {
            proof {
                lemma_first_index_present(t@, '=', i as int);
            }
            let key = str_trim(t.as_str().substring_char(0, i));
            proof {
                assert(t@.subrange(0, i as int) == t@.take(i as int));
            }
            let reserved = crate::textops::str_eq(key.as_str(), "BASE_URL")
                || crate::textops::str_eq(key.as_str(), "TOKEN") || crate::textops::str_eq(
                key.as_str(),
                "BATCH_SIZE",
            ) || crate::textops::str_eq(key.as_str(), "MAX_LINES_PER_BLOB");
            !reserved
        },
        None => {
            proof {
                if first_index_of(t@, '=') is Some {
                    let q = choose|q: int|
                        0 <= q < t@.len() && t@[q] == '=' && forall|k: int|
                            0 <= k < q ==> t@[k] != '=';
                    assert(t@[q] != '=');
                }
            }
            false
        },
    }
}

/// Whether this line is a kept comment.
fn comment_line(line: &str) -> (r: bool)
    ensures
        r == is_comment_line(line@),
{
    proof {
        reveal(is_comment_line);
    }
    let t = str_trim(line);
    let tlen = t.as_str().unicode_len();
    tlen > 0 && t.as_str().get_char(0) == '#'
}

/// Renders the settings file: the managed keys first, then the preserved
/// foreign settings in file order, then the comments.
#[verifier::rlimit(100)]
pub fn render_acemcp_settings(
    existing: &Vec<String>,
    base_url: &str,
    token: &str,
    batch_size: Option<u32>,
    max_lines_per_blob: Option<u32>,
) -> (r: String)
    ensures
        r@ == rendered_settings(
            existing.deep_view(),
            base_url@,
            token@,
            batch_size,
            max_lines_per_blob,
        ),
{
    let mut out = "BASE_URL = \"".to_owned();
    out.append(base_url);
    out.append("\"\n");
    out.append("TOKEN = \"");
    out.append(token);
    out.append("\"\n");
    match batch_size {
        Some(b) => {
            out.append("BATCH_SIZE = ");
            out.append(u64_to_dec(b as u64).as_str());
            out.append("\n");
        },
        None => {},
    }
    match max_lines_per_blob {
        Some(m) => {
            out.append("MAX_LINES_PER_BLOB = ");
            out.append(u64_to_dec(m as u64).as_str());
            out.append("\n");
        },
        None => {},
    }
    append_matching(&mut out, existing, false);
    append_matching(&mut out, existing, true);
    proof {
        assert(out@ =~= rendered_settings(
            existing.deep_view(),
            base_url@,
            token@,
            batch_size,
            max_lines_per_blob,
        ));
    }
    out
}

} // verus!
